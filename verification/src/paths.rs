//! Paths through the schema: foreign-key links between columns of tables, and the form a path
//! takes once its links are known.
use vstd::prelude::*;

use crate::ast::ConditionSet;
use crate::sql_tree::Select;
use crate::syntax::Composition;

verus! {

/// A column of a table of the schema, by their identifiers.
#[derive(Debug, Clone, Copy, PartialEq, Eq, Structural, Hash)]
pub struct ColumnRef {
    pub table_id: u32,
    pub column_id: u32,
}

/// A foreign key followed forwards: from a column to the column it references, which identifies
/// at most one row.
#[derive(Debug, Clone, Copy, PartialEq, Eq, Structural, Hash)]
pub struct LinkToOne {
    pub start: ColumnRef,
    pub end: ColumnRef,
}

/// A foreign key followed backwards: from a referenced column to the column that references it,
/// which may match many rows.
#[derive(Debug, Clone, Copy, PartialEq, Eq, Structural, Hash)]
pub struct LinkToMany {
    pub start: ColumnRef,
    pub end: ColumnRef,
}

#[derive(Debug, Clone, Copy, PartialEq, Eq, Structural, Hash)]
pub enum MultiLink {
    ForwardLinkToOne(LinkToOne),
    ReverseLinkToMany(LinkToMany),
}

/// A link with the conditions that the rows it reaches must meet.
#[derive(Debug, Clone)]
pub struct FilteredLink {
    pub link: MultiLink,
    pub condition_set: ConditionSet,
}

/// A path split into its links to one row (joined directly) and what follows them.
#[derive(Debug)]
pub struct ClarifiedPath {
    pub head: Option<Vec<LinkToOne>>,
    pub tail: ClarifiedPathTail,
}

#[derive(Debug)]
pub enum ClarifiedPathTail {
    Column(String),
    /// The links that may reach many rows, and the column named at the end, if any.
    ChainToMany((Vec<FilteredLink>, Option<String>)),
}

/// A value computed in a common table expression: its select, the alias of the value column, and
/// the compositions still to apply to it afterwards.
pub struct ValueViaCte {
    pub select: Select,
    pub value_alias: String,
    pub compositions: Vec<Composition>,
}

} // verus!
