//! The registry's vocabulary: the enumerations that its requests and
//! responses carry, with their wire names.

use vstd::prelude::*;

verus! {

/// Who can see a skill in the registry.
#[derive(Clone, Copy, Debug, PartialEq, Eq, Structural)]
pub enum PakVisibility {
    Public,
    Unlisted,
    Private,
}

impl PakVisibility {
    /// The wire name, in capitals.
    pub fn as_str(&self) -> (r: &'static str)
        ensures
            r@ == match self {
                PakVisibility::Public => "PUBLIC"@,
                PakVisibility::Unlisted => "UNLISTED"@,
                PakVisibility::Private => "PRIVATE"@,
            },
    {
        match self {
            PakVisibility::Public => "PUBLIC",
            PakVisibility::Unlisted => "UNLISTED",
            PakVisibility::Private => "PRIVATE",
        }
    }
}

/// Whether a skill is maintained.
#[derive(Clone, Copy, Debug, PartialEq, Eq, Structural)]
pub enum PakStatus {
    Active,
    Deprecated,
}

impl PakStatus {
    /// The wire name, in capitals.
    pub fn as_str(&self) -> (r: &'static str)
        ensures
            r@ == match self {
                PakStatus::Active => "ACTIVE"@,
                PakStatus::Deprecated => "DEPRECATED"@,
            },
    {
        match self {
            PakStatus::Active => "ACTIVE",
            PakStatus::Deprecated => "DEPRECATED",
        }
    }
}

/// Where a published version stands in review.
#[derive(Clone, Copy, Debug, PartialEq, Eq, Structural)]
pub enum PakVersionStatus {
    Submitted,
    Approved,
    Rejected,
}

impl PakVersionStatus {
    /// The wire name, in capitals.
    pub fn as_str(&self) -> (r: &'static str)
        ensures
            r@ == match self {
                PakVersionStatus::Submitted => "SUBMITTED"@,
                PakVersionStatus::Approved => "APPROVED"@,
                PakVersionStatus::Rejected => "REJECTED"@,
            },
    {
        match self {
            PakVersionStatus::Submitted => "SUBMITTED",
            PakVersionStatus::Approved => "APPROVED",
            PakVersionStatus::Rejected => "REJECTED",
        }
    }
}

/// The order of a listing.
#[derive(Clone, Copy, Debug, PartialEq, Eq, Structural)]
pub enum PakSortBy {
    Trending,
    MostPopular,
    Recent,
}

impl PakSortBy {
    /// The wire name, in capitals with underscores.
    pub fn as_str(&self) -> (r: &'static str)
        ensures
            r@ == match self {
                PakSortBy::Trending => "TRENDING"@,
                PakSortBy::MostPopular => "MOST_POPULAR"@,
                PakSortBy::Recent => "RECENT"@,
            },
    {
        match self {
            PakSortBy::Trending => "TRENDING",
            PakSortBy::MostPopular => "MOST_POPULAR",
            PakSortBy::Recent => "RECENT",
        }
    }
}

/// The period that a trending listing covers.
#[derive(Clone, Copy, Debug, PartialEq, Eq, Structural)]
pub enum PakTimeWindow {
    Daily,
    Weekly,
    Monthly,
    AllTime,
}

impl PakTimeWindow {
    /// The wire name, in capitals with underscores.
    pub fn as_str(&self) -> (r: &'static str)
        ensures
            r@ == match self {
                PakTimeWindow::Daily => "DAILY"@,
                PakTimeWindow::Weekly => "WEEKLY"@,
                PakTimeWindow::Monthly => "MONTHLY"@,
                PakTimeWindow::AllTime => "ALL_TIME"@,
            },
    {
        match self {
            PakTimeWindow::Daily => "DAILY",
            PakTimeWindow::Weekly => "WEEKLY",
            PakTimeWindow::Monthly => "MONTHLY",
            PakTimeWindow::AllTime => "ALL_TIME",
        }
    }
}

/// Whether an item of a skill's content is a file or a directory.
#[derive(Clone, Copy, Debug, PartialEq, Eq, Structural)]
pub enum ContentItemType {
    File,
    Dir,
}

impl ContentItemType {
    /// The wire name, in lower case.
    pub fn as_str(&self) -> (r: &'static str)
        ensures
            r@ == match self {
                ContentItemType::File => "file"@,
                ContentItemType::Dir => "dir"@,
            },
    {
        match self {
            ContentItemType::File => "file",
            ContentItemType::Dir => "dir",
        }
    }
}

} // verus!
