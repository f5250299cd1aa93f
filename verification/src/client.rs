//! What the two sources are asked, and how their answers are judged. The
//! asking itself is left to the caller.

use vstd::prelude::*;
use crate::cache::Cache;
use crate::error::AppError;
use crate::text::chars_of;
use crate::utils::tokens::{all_digits, digits_value, lemma_digits_value_grows};

verus! {

/// The root of the benchmark source.
pub const API_BASE: &'static str = "https://artificialanalysis.ai/api/v2";

/// The endpoint of the language models.
pub const LLM_MODELS: &'static str = "/data/llms/models";

/// The endpoint of the text-to-image models.
pub const TEXT_TO_IMAGE: &'static str = "/data/media/text-to-image";

/// The endpoint of the image-editing models.
pub const IMAGE_EDITING: &'static str = "/data/media/image-editing";

/// The endpoint of the text-to-speech models.
pub const TEXT_TO_SPEECH: &'static str = "/data/media/text-to-speech";

/// The endpoint of the text-to-video models.
pub const TEXT_TO_VIDEO: &'static str = "/data/media/text-to-video";

/// The endpoint of the image-to-video models.
pub const IMAGE_TO_VIDEO: &'static str = "/data/media/image-to-video";

/// The address of the capability source.
pub const MODELS_DEV_API: &'static str = "https://models.dev/api.json";

/// How much of the allowance is left, as the benchmark source reports it.
#[derive(Debug, Clone)]
pub struct QuotaInfo {
    pub limit: u64,
    pub remaining: u64,
    pub reset: String,
    /// When this was learned, in seconds.
    pub updated_at: i64,
}

/// What a request is to do first.
#[derive(Debug, Clone)]
pub struct RequestPlan {
    /// The key under which the answer is cached.
    pub cache_key: String,
    /// Whether the cache is looked into before the source is asked.
    pub read_cache: bool,
    /// The address to ask.
    pub url: String,
    /// The parameters to send with the request, as names and values in order.
    pub query: Vec<(String, String)>,
}

/// Whether `query` holds the names and values of `params`, in order.
pub open spec fn carries_params(query: Seq<(String, String)>, params: Seq<(&str, &str)>) -> bool {
    &&& query.len() == params.len()
    &&& forall|i: int|
        0 <= i < params.len() ==> (#[trigger] query[i]).0@ == params[i].0@ && query[i].1@
            == params[i].1@
}

/// Plans a request to `endpoint` of the benchmark source with the parameters
/// `params`: the cache is looked into first unless a refresh is forced.
pub fn plan_request(endpoint: &str, params: &[(&str, &str)], refresh: bool) -> (plan: RequestPlan)
    ensures
        plan.cache_key@ == crate::cache::key_text(endpoint@, params@),
        plan.read_cache == !refresh,
        plan.url@ == API_BASE@ + endpoint@,
        carries_params(plan.query@, params@),
{
    let mut url = String::new();
    url.append(API_BASE);
    url.append(endpoint);
    let mut query: Vec<(String, String)> = Vec::new();
    let mut i: usize = 0;
    while i < params.len()
        invariant
            i <= params.len(),
            carries_params(query@, params@.take(i as int)),
        decreases params.len() - i,
    {
        query.push((params[i].0.to_owned(), params[i].1.to_owned()));
        i += 1;
    }
    assert(params@.take(params.len() as int) == params@);
    RequestPlan { cache_key: Cache::cache_key(endpoint, params), read_cache: !refresh, url, query }
}

/// The number that `s` writes: digits, optionally behind a plus sign, that
/// write a number within 64 bits.
pub open spec fn count_of(s: Seq<char>) -> Option<u64> {
    let digits = if s.len() > 0 && s[0] == '+' {
        s.drop_first()
    } else {
        s
    };
    if digits.len() > 0 && all_digits(digits) && digits_value(digits) <= u64::MAX {
        Some(digits_value(digits) as u64)
    } else {
        None
    }
}

/// Computes [`count_of`].
pub fn parse_count(s: &str) -> (r: Option<u64>)
    ensures
        r == count_of(s@),
{
    let chars = chars_of(s);
    let start: usize = if chars.len() > 0 && chars[0] == '+' {
        1
    } else {
        0
    };
    let ghost digits = chars@.subrange(start as int, chars.len() as int);
    assert(digits == if start == 1 {
        chars@.drop_first()
    } else {
        chars@
    });
    if start == chars.len() {
        return None;
    }
    let mut acc: u64 = 0;
    let mut i: usize = start;
    assert(chars@.subrange(start as int, start as int) == Seq::<char>::empty());
    while i < chars.len()
        invariant
            start <= i <= chars.len(),
            start < chars.len(),
            chars@ == s@,
            start == 1 <==> (chars@.len() > 0 && chars@[0] == '+'),
            start == 0 || start == 1,
            digits == chars@.subrange(start as int, chars.len() as int),
            digits == if start == 1 {
                chars@.drop_first()
            } else {
                chars@
            },
            all_digits(chars@.subrange(start as int, i as int)),
            acc == digits_value(chars@.subrange(start as int, i as int)),
        decreases chars.len() - i,
    {
        let c = chars[i];
        let ghost head = chars@.subrange(start as int, i + 1);
        assert(head.drop_last() == chars@.subrange(start as int, i as int));
        assert(head.last() == c);
        if !('0' <= c && c <= '9') {
            assert(digits[i - start] == c);
            return None;
        }
        let d: u64 = (c as u32 - 48) as u64;
        if acc > (u64::MAX - d) / 10 {
            proof {
                assert(digits_value(head) == acc * 10 + d);
                assert(all_digits(digits) ==> digits_value(digits) > u64::MAX) by {
                    if all_digits(digits) {
                        lemma_digits_value_grows(digits, (i + 1 - start) as nat);
                        assert(digits.take((i + 1 - start) as int) == head);
                    }
                }
            }
            return None;
        }
        acc = acc * 10 + d;
        i += 1;
    }
    assert(chars@.subrange(start as int, chars.len() as int) == digits);
    Some(acc)
}

/// What the headers of an answer say of the allowance: nothing unless both the
/// limit and what remains of it are numbers; the time of reset is `unknown`
/// where it is not given.
pub open spec fn quota_of(
    limit: Option<&str>,
    remaining: Option<&str>,
    reset: Option<&str>,
) -> Option<(u64, u64, Seq<char>)> {
    match (limit, remaining) {
        (Some(l), Some(r)) => match (count_of(l@), count_of(r@)) {
            (Some(a), Some(b)) => Some(
                (
                    a,
                    b,
                    match reset {
                        Some(t) => t@,
                        None => "unknown"@,
                    },
                ),
            ),
            _ => None,
        },
        _ => None,
    }
}

/// Extracts the allowance from the headers of an answer received at `now`.
pub fn extract_quota(
    limit: Option<&str>,
    remaining: Option<&str>,
    reset: Option<&str>,
    now: i64,
) -> (r: Option<QuotaInfo>)
    ensures
        match r {
            Some(q) => quota_of(limit, remaining, reset) == Some((q.limit, q.remaining, q.reset@))
                && q.updated_at == now,
            None => quota_of(limit, remaining, reset) is None,
        },
{
    let limit = match limit {
        Some(l) => match parse_count(l) {
            Some(n) => n,
            None => {
                return None;
            },
        },
        None => {
            return None;
        },
    };
    let remaining = match remaining {
        Some(r) => match parse_count(r) {
            Some(n) => n,
            None => {
                return None;
            },
        },
        None => {
            return None;
        },
    };
    let reset = match reset {
        Some(t) => t.to_owned(),
        None => "unknown".to_owned(),
    };
    Some(QuotaInfo { limit, remaining, reset, updated_at: now })
}

/// Whether an answer with status `status` is a success.
pub open spec fn is_success(status: u16) -> bool {
    200 <= status <= 299
}

/// How an answer of the benchmark source with status `status` is judged: 401
/// is a refused credential, 429 a request to slow down, 5xx a failure of the
/// source, anything else but 2xx a failure that carries status and body.
pub open spec fn verdict(status: u16, reset: Option<String>, body: Seq<char>, e: AppError) -> bool {
    if status == 401 {
        e is InvalidApiKey
    } else if status == 429 {
        e matches AppError::RateLimited(hint) && hint@ == (match reset {
            Some(r) => r@,
            None => "unknown"@,
        })
    } else if 500 <= status <= 599 {
        e is ServerError
    } else {
        e matches AppError::Api { status: s, message } && s == status && message@ == body
    }
}

/// Judges an answer of the benchmark source.
pub fn judge_response(status: u16, quota: &Option<QuotaInfo>, body: &str) -> (r: Result<(), AppError>)
    ensures
        r is Ok <==> is_success(status),
        match r {
            Ok(_) => true,
            Err(e) => verdict(
                status,
                match *quota {
                    Some(q) => Some(q.reset),
                    None => None,
                },
                body@,
                e,
            ),
        },
{
    if status == 401 {
        Err(AppError::InvalidApiKey)
    } else if status == 429 {
        let hint = match quota {
            Some(q) => q.reset.clone(),
            None => "unknown".to_owned(),
        };
        Err(AppError::RateLimited(hint))
    } else if 500 <= status && status <= 599 {
        Err(AppError::ServerError)
    } else if !(200 <= status && status <= 299) {
        Err(AppError::Api { status, message: body.to_owned() })
    } else {
        Ok(())
    }
}

/// Judges an answer of the capability source: anything but 2xx is a failure
/// that carries the status and the body.
pub fn judge_catalog_response(status: u16, body: &str) -> (r: Result<(), AppError>)
    ensures
        r is Ok <==> is_success(status),
        r matches Err(e) ==> e matches AppError::Api { status: s, message } && s == status
            && message@ == "models.dev API error: "@ + body@,
{
    if 200 <= status && status <= 299 {
        Ok(())
    } else {
        let mut message = String::new();
        message.append("models.dev API error: ");
        message.append(body);
        Err(AppError::Api { status, message })
    }
}

} // verus!
