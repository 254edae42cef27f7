//! The request for a list conversion and the rows that answer it.

use vstd::prelude::*;

verus! {

/// A request to convert one list: whose list, which list, and which
/// attributes of its films, in the order they were asked for.
#[derive(Debug, Clone, PartialEq, Eq)]
pub struct ListInfo {
    pub list_name: String,
    pub author_user: String,
    pub attrs: Vec<String>,
}

/// One content line on its way to the client, with the number of content
/// lines that the whole conversion will have.
#[derive(Debug, Clone, PartialEq, Eq)]
pub struct ListRow {
    pub total_rows: usize,
    pub row_data: String,
}

/// A row with its text as a character sequence.
pub struct ListRowModel {
    pub total_rows: nat,
    pub row_data: Seq<char>,
}

impl View for ListRow {
    type V = ListRowModel;

    open spec fn view(&self) -> ListRowModel {
        ListRowModel { total_rows: self.total_rows as nat, row_data: self.row_data@ }
    }
}

} // verus!
