//! Media models: image, speech and video generators with their ratings.

use vstd::prelude::*;
use crate::number::Double;

verus! {

/// A media model as a leaderboard delivers it.
#[derive(Debug, Clone)]
pub struct MediaModel {
    pub id: String,
    pub name: String,
    pub slug: String,
    pub model_creator: MediaCreator,
    pub elo: Option<Double>,
    pub rank: Option<u32>,
    pub ci95: Option<String>,
    pub appearances: Option<u64>,
    pub release_date: Option<String>,
    pub categories: Option<Vec<CategoryScore>>,
}

/// Who made a media model.
#[derive(Debug, Clone)]
pub struct MediaCreator {
    pub id: String,
    pub name: String,
    pub slug: Option<String>,
}

/// The rating of a media model in one category.
#[derive(Debug, Clone)]
pub struct CategoryScore {
    pub style_category: Option<String>,
    pub subject_matter_category: Option<String>,
    pub format_category: Option<String>,
    pub elo: Option<Double>,
    pub ci95: Option<String>,
    pub appearances: Option<u64>,
}

impl MediaModel {
    /// The rating; a model without one is rated zero.
    pub fn elo_score(&self) -> (r: Double)
        ensures
            r == (match self.elo {
                Some(e) => e,
                None => Double { bits: 0 },
            }),
    {
        match self.elo {
            Some(e) => e,
            None => Double::from_bits(0),
        }
    }

    /// The rank; a model without one has rank zero.
    pub fn ranking(&self) -> (r: u32)
        ensures
            r == (match self.rank {
                Some(n) => n,
                None => 0,
            }),
    {
        match self.rank {
            Some(n) => n,
            None => 0,
        }
    }

    /// The name of the creator.
    pub fn creator_name(&self) -> (r: &str)
        ensures
            r@ == self.model_creator.name@,
    {
        self.model_creator.name.as_str()
    }
}

} // verus!
