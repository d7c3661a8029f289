//! The records and enumerations exchanged over the boundary. Instants are
//! held as seconds since the Unix epoch, in UTC.

use vstd::prelude::*;

verus! {

#[derive(Clone, Debug)]
pub struct User {
    pub id: i64,
    pub user_name: String,
    pub energy: i64,
    pub sentence: String,
    pub hated_count: i64,
    pub followed_count: i64,
    pub hating_count: i64,
    pub following_count: i64,
}

#[derive(Clone, Debug)]
pub struct Party {
    pub id: i64,
    pub party_name: String,
    pub board_id: Option<i64>,
    pub board_name: Option<String>,
    pub energy: i32,
    pub ruling: bool,
    pub create_time: i64,
}

#[derive(Clone, Debug)]
pub struct Board {
    pub id: i64,
    pub board_name: String,
    pub create_time: i64,
    pub title: String,
    pub detail: String,
    pub force: String,
    pub ruling_party_id: i64,
    pub popularity: i64,
}

#[derive(Clone, Debug)]
pub struct BoardName {
    pub id: i64,
    pub board_name: String,
}

#[derive(Clone, Debug)]
pub struct NewBoard {
    pub board_name: String,
    pub title: String,
    pub detail: String,
    pub force: String,
    pub ruling_party_id: i64,
}

#[derive(Clone, Debug)]
pub struct ArticleMeta {
    pub id: i64,
    pub board_id: i64,
    pub board_name: String,
    pub category_id: i64,
    pub category_name: String,
    pub category_source: String,
    pub title: String,
    pub author_id: i64,
    pub author_name: String,
    pub show_in_list: bool,
    pub create_time: i64,
}

#[derive(Clone, Debug)]
pub struct Article {
    pub meta: ArticleMeta,
    pub content: String,
}

#[derive(Clone, Debug)]
pub struct BoardOverview {
    pub id: i64,
    pub board_name: String,
    pub title: String,
    pub popularity: i64,
}

#[derive(Clone, Copy, PartialEq, Eq, Structural, Debug)]
pub enum UserRelationKind {
    Follow,
    Hate,
    OpenlyHate,
}

impl UserRelationKind {
    pub open spec fn spec_label(self) -> Seq<char> {
        match self {
            UserRelationKind::Follow => "follow"@,
            UserRelationKind::Hate => "hate"@,
            UserRelationKind::OpenlyHate => "openly_hate"@,
        }
    }

    /// The name of the relation as stored and shown.
    pub fn label(&self) -> (r: String)
        ensures
            r@ == self.spec_label(),
    {
        match self {
            UserRelationKind::Follow => String::from_str("follow"),
            UserRelationKind::Hate => String::from_str("hate"),
            UserRelationKind::OpenlyHate => String::from_str("openly_hate"),
        }
    }
}

#[derive(Clone, Debug)]
pub struct UserRelation {
    pub from_user: i64,
    pub to_user: i64,
    pub kind: UserRelationKind,
}

} // verus!
