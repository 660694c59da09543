//! The Row Node Extractor: enumerating node identities in one
//! schema-less query result row.
//!
//! A result row is modeled as its labelled cells in the row's natural
//! iteration order, each cell carrying one of the store's dynamically
//! typed values. Only node-typed values matter to the extractor; a node
//! is its property map, and its identity is the "name" property. The
//! store transport drains rows into this shape before the library reads
//! them; nothing here assumes column names or counts.

use vstd::prelude::*;

verus! {

/// Why extraction aborted the current query/render request.
#[derive(Debug, PartialEq, Eq, Structural, Clone, Copy)]
pub enum ExtractError {
    /// A node-typed value lacks the "name" property that identifies it.
    MissingProperty,
    /// A looked-up column is absent, or its value is not a node.
    MissingColumn,
}

impl ExtractError {
    /// The user-facing wording of the error, as the query/render path
    /// reports it instead of crashing the long-lived process.
    pub fn message(&self) -> (r: String)
        ensures
            *self is MissingProperty ==> r@ == "node without a name property"@,
            *self is MissingColumn ==> r@ == "missing node column"@,
    {
        match self {
            ExtractError::MissingProperty => String::from_str("node without a name property"),
            ExtractError::MissingColumn => String::from_str("missing node column"),
        }
    }
}

/// A node value of a result row: its property map, as labelled entries
/// in the store's order.
pub struct GraphNode {
    pub properties: Vec<(String, String)>,
}

/// One dynamically typed cell of a schema-less result row. Only
/// node-typed values carry data the extractor reads.
pub enum CellValue {
    Node(GraphNode),
    Relationship,
    Scalar,
    Other,
}

/// One schema-less query result row: labelled cells in the row's
/// natural iteration order.
pub struct QueryRow {
    pub cells: Vec<(String, CellValue)>,
}

/// The first property with the given key, if any.
pub open spec fn prop_lookup(props: Seq<(String, String)>, key: Seq<char>) -> Option<Seq<char>>
    decreases props.len(),
{
    if props.len() == 0 {
        None
    } else if props[0].0@ == key {
        Some(props[0].1@)
    } else {
        prop_lookup(props.drop_first(), key)
    }
}

/// A node's display name: its "name" property.
pub open spec fn node_name(node: GraphNode) -> Option<Seq<char>> {
    prop_lookup(node.properties@, "name"@)
}

/// The display names of a row's node-typed cells, in row order, or
/// nothing if some node lacks a name.
pub open spec fn extract_spec(cells: Seq<(String, CellValue)>) -> Option<Seq<Seq<char>>>
    decreases cells.len(),
{
    if cells.len() == 0 {
        Some(Seq::empty())
    } else {
        let rest = extract_spec(cells.drop_first());
        match cells[0].1 {
            CellValue::Node(node) => match (node_name(node), rest) {
                (Some(nm), Some(tail)) => Some(seq![nm] + tail),
                _ => None,
            },
            _ => rest,
        }
    }
}

/// The value stored under a label, if the label occurs in the row.
pub open spec fn cell_lookup(cells: Seq<(String, CellValue)>, label: Seq<char>) -> Option<
    CellValue,
>
    decreases cells.len(),
{
    if cells.len() == 0 {
        None
    } else if cells[0].0@ == label {
        Some(cells[0].1)
    } else {
        cell_lookup(cells.drop_first(), label)
    }
}

/// The node stored under a label, if the label resolves to a node.
pub open spec fn node_at(cells: Seq<(String, CellValue)>, label: Seq<char>) -> Option<GraphNode> {
    match cell_lookup(cells, label) {
        Some(CellValue::Node(node)) => Some(node),
        _ => None,
    }
}

/// Extracting one labelled endpoint: the name of the node under the
/// label, or the error saying what was missing.
pub open spec fn endpoint_spec(cells: Seq<(String, CellValue)>, label: Seq<char>) -> Result<
    Seq<char>,
    ExtractError,
> {
    match node_at(cells, label) {
        None => Err(ExtractError::MissingColumn),
        Some(node) => match node_name(node) {
            None => Err(ExtractError::MissingProperty),
            Some(nm) => Ok(nm),
        },
    }
}

/// The two endpoints of one relation row: the names of the nodes under
/// the labels "n" and "m", checked in that order.
pub open spec fn relation_spec(cells: Seq<(String, CellValue)>) -> Result<
    (Seq<char>, Seq<char>),
    ExtractError,
> {
    match endpoint_spec(cells, "n"@) {
        Err(e) => Err(e),
        Ok(a) => match endpoint_spec(cells, "m"@) {
            Err(e) => Err(e),
            Ok(b) => Ok((a, b)),
        },
    }
}

/// The first property with the given key, by scanning the entries in
/// order.
fn lookup_property<'a>(props: &'a Vec<(String, String)>, key: &String) -> (r: Option<&'a String>)
    ensures
        match r {
            Some(v) => prop_lookup(props@, key@) == Some(v@),
            None => prop_lookup(props@, key@) is None,
        },
{
    let mut i: usize = 0;
    proof {
        assert(props@.skip(0) =~= props@);
    }
    while i < props.len()
        invariant
            i <= props@.len(),
            prop_lookup(props@, key@) == prop_lookup(props@.skip(i as int), key@),
        decreases props@.len() - i,
    {
        proof {
            assert(props@.skip(i as int)[0] == props@[i as int]);
            assert(props@.skip(i as int).drop_first() =~= props@.skip(i as int + 1));
        }
        if props[i].0 == *key {
            return Some(&props[i].1);
        }
        i = i + 1;
    }
    proof {
        assert(props@.skip(props@.len() as int) =~= Seq::<(String, String)>::empty());
    }
    None
}

/// The cell stored under the given label, by scanning the cells in
/// order.
fn lookup_cell<'a>(cells: &'a Vec<(String, CellValue)>, label: &String) -> (r: Option<
    &'a CellValue,
>)
    ensures
        match r {
            Some(v) => cell_lookup(cells@, label@) == Some(*v),
            None => cell_lookup(cells@, label@) is None,
        },
{
    let mut i: usize = 0;
    proof {
        assert(cells@.skip(0) =~= cells@);
    }
    while i < cells.len()
        invariant
            i <= cells@.len(),
            cell_lookup(cells@, label@) == cell_lookup(cells@.skip(i as int), label@),
        decreases cells@.len() - i,
    {
        proof {
            assert(cells@.skip(i as int)[0] == cells@[i as int]);
            assert(cells@.skip(i as int).drop_first() =~= cells@.skip(i as int + 1));
        }
        if cells[i].0 == *label {
            return Some(&cells[i].1);
        }
        i = i + 1;
    }
    proof {
        assert(cells@.skip(cells@.len() as int) =~= Seq::<(String, CellValue)>::empty());
    }
    None
}

/// One labelled endpoint of a relation row: the name of the node stored
/// under the label.
fn extract_endpoint(cells: &Vec<(String, CellValue)>, label: &String) -> (r: Result<
    String,
    ExtractError,
>)
    ensures
        (match r {
            Ok(nm) => Ok(nm@),
            Err(e) => Err(e),
        }) == endpoint_spec(cells@, label@),
{
    match lookup_cell(cells, label) {
        Some(CellValue::Node(node)) => {
            let key = String::from_str("name");
            match lookup_property(&node.properties, &key) {
                None => Err(ExtractError::MissingProperty),
                Some(v) => Ok(v.clone()),
            }
        },
        _ => Err(ExtractError::MissingColumn),
    }
}

/// The two endpoints of one relation row: the names of the nodes under
/// the labels "n" and "m", as one ordered pair.
pub fn parse_relation(row: &QueryRow) -> (r: Result<(String, String), ExtractError>)
    ensures
        (match r {
            Ok(p) => Ok((p.0@, p.1@)),
            Err(e) => Err(e),
        }) == relation_spec(row.cells@),
{
    let label_n = String::from_str("n");
    let a = match extract_endpoint(&row.cells, &label_n) {
        Ok(a) => a,
        Err(e) => {
            return Err(e);
        },
    };
    let label_m = String::from_str("m");
    let b = match extract_endpoint(&row.cells, &label_m) {
        Ok(b) => b,
        Err(e) => {
            return Err(e);
        },
    };
    Ok((a, b))
}

/// The Row Node Extractor: the display names of the row's node-typed
/// values, in the row's natural iteration order; non-node values are
/// skipped. A node lacking the "name" property fails the whole row.
pub fn parse_all_relations(row: &QueryRow) -> (r: Result<Vec<String>, ExtractError>)
    ensures
        match r {
            Ok(names) => extract_spec(row.cells@) == Some(names.deep_view()),
            Err(e) => extract_spec(row.cells@) is None && e == ExtractError::MissingProperty,
        },
{
    let ghost cv = row.cells@;
    let key = String::from_str("name");
    let mut out: Vec<String> = Vec::new();
    let mut i: usize = 0;
    proof {
        assert(cv.skip(0) =~= cv);
        match extract_spec(cv) {
            Some(rest) => {
                assert(out.deep_view() + rest =~= rest);
            },
            None => {},
        }
    }
    while i < row.cells.len()
        invariant
            cv == row.cells@,
            i <= cv.len(),
            key@ == "name"@,
            extract_spec(cv) == (match extract_spec(cv.skip(i as int)) {
                Some(rest) => Some(out.deep_view() + rest),
                None => None::<Seq<Seq<char>>>,
            }),
        decreases cv.len() - i,
    {
        proof {
            assert(cv.skip(i as int)[0] == cv[i as int]);
            assert(cv.skip(i as int).drop_first() =~= cv.skip(i as int + 1));
        }
        match &row.cells[i].1 {
            CellValue::Node(node) => {
                match lookup_property(&node.properties, &key) {
                    None => {
                        return Err(ExtractError::MissingProperty);
                    },
                    Some(v) => {
                        let ghost before = out.deep_view();
                        out.push(v.clone());
                        proof {
                            assert(out.deep_view() =~= before.push(v@));
                            match extract_spec(cv.skip(i as int + 1)) {
                                Some(rest) => {
                                    assert(before.push(v@) + rest =~= before + (seq![v@] + rest));
                                },
                                None => {},
                            }
                        }
                    },
                }
            },
            _ => {},
        }
        i = i + 1;
    }
    proof {
        assert(cv.skip(cv.len() as int) =~= Seq::<(String, CellValue)>::empty());
        match extract_spec(cv) {
            Some(_) => {
                assert(out.deep_view() + Seq::<Seq<char>>::empty() =~= out.deep_view());
            },
            None => {},
        }
    }
    Ok(out)
}

/// Whether one cell lets extraction proceed: any non-node value, or a
/// node that carries its "name" property.
pub open spec fn cell_named(cell: (String, CellValue)) -> bool {
    match cell.1 {
        CellValue::Node(node) => node_name(node) is Some,
        _ => true,
    }
}

/// Extraction succeeds exactly when every node-typed value of the row
/// carries a "name" property.
pub proof fn lemma_extract_success(cells: Seq<(String, CellValue)>)
    ensures
        (extract_spec(cells) is Some) <==> (forall|i: int|
            0 <= i < cells.len() ==> #[trigger] cell_named(cells[i])),
    decreases cells.len(),
{
    if cells.len() > 0 {
        let rest = cells.drop_first();
        lemma_extract_success(rest);
        assert forall|i: int| 0 <= i < rest.len() implies #[trigger] rest[i] == cells[i + 1] by {}
        if extract_spec(cells) is Some {
            assert forall|i: int| 0 <= i < cells.len() implies #[trigger] cell_named(
                cells[i],
            ) by {
                if i > 0 {
                    assert(cell_named(rest[i - 1]));
                }
            }
        }
        if forall|i: int| 0 <= i < cells.len() ==> #[trigger] cell_named(cells[i]) {
            assert forall|i: int| 0 <= i < rest.len() implies #[trigger] cell_named(rest[i]) by {
                assert(cell_named(cells[i + 1]));
            }
            assert(cell_named(cells[0]));
            assert(extract_spec(cells) is Some);
        }
    }
}

/// A row with no node-typed values extracts to the empty list.
pub proof fn lemma_extract_no_nodes(cells: Seq<(String, CellValue)>)
    requires
        forall|i: int| 0 <= i < cells.len() ==> !(#[trigger] cells[i].1 is Node),
    ensures
        extract_spec(cells) == Some(Seq::<Seq<char>>::empty()),
    decreases cells.len(),
{
    if cells.len() > 0 {
        assert(!(cells[0].1 is Node));
        assert forall|i: int| 0 <= i < cells.drop_first().len() implies !(#[trigger] cells.drop_first()[i].1 is Node) by {
            assert(cells.drop_first()[i] == cells[i + 1]);
        }
        lemma_extract_no_nodes(cells.drop_first());
    }
}

/// A row one of whose node-typed values lacks the "name" property fails
/// extraction as a whole: no partial output.
pub proof fn lemma_extract_missing_name(cells: Seq<(String, CellValue)>, i: int)
    requires
        0 <= i < cells.len(),
        cells[i].1 is Node,
        node_name(cells[i].1->Node_0) is None,
    ensures
        extract_spec(cells) is None,
    decreases cells.len(),
{
    if i > 0 {
        assert(cells.drop_first()[i - 1] == cells[i]);
        lemma_extract_missing_name(cells.drop_first(), i - 1);
    }
}

} // verus!
