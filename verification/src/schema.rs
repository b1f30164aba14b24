//! The schema the application queries: two tables and one relationship.
//!
//! `maps(uuid PK, title, description)` holds roadmap containers and
//! `nodes(uuid PK, title, description, node_type, parent_node NULLABLE,
//! roadmap_uuid)` their items; the declared relationship joins
//! `nodes.roadmap_uuid` to `maps.uuid`, so queries can combine a map with
//! its nodes without restating the join condition. The declaration is a
//! query-construction aid, not an enforcement mechanism: the referential
//! rules themselves are enforced by [`crate::store`].

use vstd::prelude::*;
use vstd::string::StringExecFns;

verus! {

/// One column of a table.
pub struct ColumnDef {
    pub name: String,
    /// Whether the column admits NULL; every column here is required
    /// except a node's `parent_node`.
    pub nullable: bool,
}

/// The mathematical value of a [`ColumnDef`].
pub struct ColumnModel {
    pub name: Seq<char>,
    pub nullable: bool,
}

impl View for ColumnDef {
    type V = ColumnModel;

    open spec fn view(&self) -> ColumnModel {
        ColumnModel { name: self.name@, nullable: self.nullable }
    }
}

/// One table: its name, its primary-key column, and its columns in
/// declaration order.
pub struct TableDef {
    pub name: String,
    pub primary_key: String,
    pub columns: Vec<ColumnDef>,
}

/// The mathematical value of a [`TableDef`].
pub struct TableModel {
    pub name: Seq<char>,
    pub primary_key: Seq<char>,
    pub columns: Seq<ColumnModel>,
}

impl View for TableDef {
    type V = TableModel;

    open spec fn view(&self) -> TableModel {
        TableModel {
            name: self.name@,
            primary_key: self.primary_key@,
            columns: self.columns@.map_values(|c: ColumnDef| c@),
        }
    }
}

/// The joinable relationship between two tables: each row of the child
/// table names, in `child_column`, the `parent_column` value of one row of
/// the parent table.
pub struct JoinRelation {
    pub child_table: String,
    pub child_column: String,
    pub parent_table: String,
    pub parent_column: String,
}

/// The mathematical value of a [`JoinRelation`].
pub struct JoinModel {
    pub child_table: Seq<char>,
    pub child_column: Seq<char>,
    pub parent_table: Seq<char>,
    pub parent_column: Seq<char>,
}

impl View for JoinRelation {
    type V = JoinModel;

    open spec fn view(&self) -> JoinModel {
        JoinModel {
            child_table: self.child_table@,
            child_column: self.child_column@,
            parent_table: self.parent_table@,
            parent_column: self.parent_column@,
        }
    }
}

/// The declared `maps` table.
pub open spec fn spec_maps_table() -> TableModel {
    TableModel {
        name: "maps"@,
        primary_key: "uuid"@,
        columns: seq![
            ColumnModel { name: "uuid"@, nullable: false },
            ColumnModel { name: "title"@, nullable: false },
            ColumnModel { name: "description"@, nullable: false },
        ],
    }
}

/// The declared `nodes` table.
pub open spec fn spec_nodes_table() -> TableModel {
    TableModel {
        name: "nodes"@,
        primary_key: "uuid"@,
        columns: seq![
            ColumnModel { name: "uuid"@, nullable: false },
            ColumnModel { name: "title"@, nullable: false },
            ColumnModel { name: "description"@, nullable: false },
            ColumnModel { name: "node_type"@, nullable: false },
            ColumnModel { name: "parent_node"@, nullable: true },
            ColumnModel { name: "roadmap_uuid"@, nullable: false },
        ],
    }
}

/// The declared relationship: `nodes.roadmap_uuid` joins to `maps.uuid`.
pub open spec fn spec_join_relation() -> JoinModel {
    JoinModel {
        child_table: "nodes"@,
        child_column: "roadmap_uuid"@,
        parent_table: "maps"@,
        parent_column: "uuid"@,
    }
}

/// The table carries a column of this name and nullability.
pub open spec fn table_has_column(t: TableModel, name: Seq<char>, nullable: bool) -> bool {
    exists|i: int|
        0 <= i < t.columns.len() && (#[trigger] t.columns[i]).name == name && t.columns[i].nullable
            == nullable
}

/// A sound table declaration: column names are pairwise distinct and the
/// primary key is one of the columns and required.
pub open spec fn table_wf(t: TableModel) -> bool {
    &&& forall|i: int, j: int|
        0 <= i < j < t.columns.len() ==> (#[trigger] t.columns[i]).name != (
        #[trigger] t.columns[j]).name
    &&& table_has_column(t, t.primary_key, false)
}

/// The `maps` table as declared.
pub fn maps_table() -> (t: TableDef)
    ensures
        t@ == spec_maps_table(),
{
    let mut columns: Vec<ColumnDef> = Vec::new();
    columns.push(ColumnDef { name: String::from_str("uuid"), nullable: false });
    columns.push(ColumnDef { name: String::from_str("title"), nullable: false });
    columns.push(ColumnDef { name: String::from_str("description"), nullable: false });
    let t = TableDef {
        name: String::from_str("maps"),
        primary_key: String::from_str("uuid"),
        columns,
    };
    proof {
        assert(t@.columns =~= spec_maps_table().columns);
    }
    t
}

/// The `nodes` table as declared.
pub fn nodes_table() -> (t: TableDef)
    ensures
        t@ == spec_nodes_table(),
{
    let mut columns: Vec<ColumnDef> = Vec::new();
    columns.push(ColumnDef { name: String::from_str("uuid"), nullable: false });
    columns.push(ColumnDef { name: String::from_str("title"), nullable: false });
    columns.push(ColumnDef { name: String::from_str("description"), nullable: false });
    columns.push(ColumnDef { name: String::from_str("node_type"), nullable: false });
    columns.push(ColumnDef { name: String::from_str("parent_node"), nullable: true });
    columns.push(ColumnDef { name: String::from_str("roadmap_uuid"), nullable: false });
    let t = TableDef {
        name: String::from_str("nodes"),
        primary_key: String::from_str("uuid"),
        columns,
    };
    proof {
        assert(t@.columns =~= spec_nodes_table().columns);
    }
    t
}

/// The declared relationship between `nodes` and `maps`.
pub fn nodes_to_maps_join() -> (r: JoinRelation)
    ensures
        r@ == spec_join_relation(),
{
    JoinRelation {
        child_table: String::from_str("nodes"),
        child_column: String::from_str("roadmap_uuid"),
        parent_table: String::from_str("maps"),
        parent_column: String::from_str("uuid"),
    }
}

/// Both declared tables are sound, and the declared relationship is
/// consistent with them: it joins a required column of the `nodes` table
/// to the primary key of the `maps` table.
pub proof fn lemma_schema_consistent()
    ensures
        table_wf(spec_maps_table()),
        table_wf(spec_nodes_table()),
        spec_join_relation().child_table == spec_nodes_table().name,
        spec_join_relation().parent_table == spec_maps_table().name,
        table_has_column(spec_nodes_table(), spec_join_relation().child_column, false),
        spec_join_relation().parent_column == spec_maps_table().primary_key,
{
    reveal_strlit("uuid");
    reveal_strlit("title");
    reveal_strlit("description");
    reveal_strlit("node_type");
    reveal_strlit("parent_node");
    reveal_strlit("roadmap_uuid");
    assert("uuid"@[0] == 'u' && "title"@[0] == 't' && "description"@[0] == 'd' && "node_type"@[0]
        == 'n' && "parent_node"@[0] == 'p' && "roadmap_uuid"@[0] == 'r');
    let m = spec_maps_table();
    let n = spec_nodes_table();
    assert(m.columns[0].name == m.primary_key);
    assert(table_has_column(m, m.primary_key, false));
    assert forall|i: int, j: int|
        0 <= i < j < m.columns.len() implies (#[trigger] m.columns[i]).name != (
    #[trigger] m.columns[j]).name by {
        assert("uuid"@[0] == 'u' && "title"@[0] == 't' && "description"@[0] == 'd');
    }
    assert(n.columns[0].name == n.primary_key);
    assert(table_has_column(n, n.primary_key, false));
    assert(n.columns[5].name == spec_join_relation().child_column);
    assert(table_has_column(n, spec_join_relation().child_column, false));
    assert forall|i: int, j: int|
        0 <= i < j < n.columns.len() implies (#[trigger] n.columns[i]).name != (
    #[trigger] n.columns[j]).name by {
        assert("uuid"@[0] == 'u' && "title"@[0] == 't' && "description"@[0] == 'd'
            && "node_type"@[0] == 'n' && "parent_node"@[0] == 'p' && "roadmap_uuid"@[0] == 'r');
    }
}

} // verus!
