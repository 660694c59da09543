//! The Graph Description Serializer: an ordered list of node-name
//! groups becomes the fixed textual graph grammar the renderer consumes.
//!
//! The grammar is exact: a strict-graph header naming the graph, a
//! layout directive, a size directive, a one-block directive, one line
//! per group with the names upper-cased, quoted and joined by `" -- "`,
//! and a closing brace. Groups of size zero or one still yield their
//! degenerate line, and nothing is sorted or de-duplicated. A name that
//! itself contains a double quote corrupts the document; the grammar
//! performs no escaping, a documented limitation.

use vstd::prelude::*;

use crate::extract::ExtractError;
use crate::extract::QueryRow;
use crate::extract::extract_spec;
use crate::extract::parse_all_relations;
use crate::extract::parse_relation;
use crate::extract::relation_spec;
use crate::text::display_name;
use crate::text::push_char;
use crate::text::upper_seq;

verus! {

/// A name as it stands in a description line: upper-cased and wrapped
/// in double quotes, with no escaping of quotes inside the name.
pub open spec fn quoted_spec(name: Seq<char>) -> Seq<char> {
    seq!['"'] + upper_seq(name) + seq!['"']
}

/// A group's names, quoted and joined by `" -- "`.
pub open spec fn joined_spec(group: Seq<Seq<char>>) -> Seq<char>
    decreases group.len(),
{
    if group.len() == 0 {
        Seq::empty()
    } else if group.len() == 1 {
        quoted_spec(group[0])
    } else {
        joined_spec(group.drop_last()) + " -- "@ + quoted_spec(group.last())
    }
}

/// One line of the description body: the group's joined names and the
/// line break. Degenerate groups keep their line.
pub open spec fn line_spec(group: Seq<Seq<char>>) -> Seq<char> {
    joined_spec(group) + seq!['\n']
}

/// The description body: the groups' lines, in group order.
pub open spec fn body_spec(groups: Seq<Seq<Seq<char>>>) -> Seq<char>
    decreases groups.len(),
{
    if groups.len() == 0 {
        Seq::empty()
    } else {
        body_spec(groups.drop_last()) + line_spec(groups.last())
    }
}

/// The fixed head of every description: the strict-graph header and the
/// layout, size and one-block directives.
pub open spec fn header_spec() -> Seq<char> {
    "strict graph meetup_graph {\n"@ + "layout=circo\n"@ + "size=\"60,60\"\n"@ + "oneblock=true\n"@
}

/// The whole graph description for an ordered list of groups.
pub open spec fn description_spec(groups: Seq<Seq<Seq<char>>>) -> Seq<char> {
    header_spec() + body_spec(groups) + seq!['}']
}

/// The serializer emits one line per group, in group order, with no
/// de-duplication: the body is exactly the concatenation of each
/// group's own line, so equal groups yield equal lines, as many times
/// as they occur.
pub proof fn lemma_body_lines(groups: Seq<Seq<Seq<char>>>)
    ensures
        body_spec(groups) == groups.map_values(|g: Seq<Seq<char>>| line_spec(g)).flatten(),
    decreases groups.len(),
{
    let lines = groups.map_values(|g: Seq<Seq<char>>| line_spec(g));
    if groups.len() == 0 {
        assert(lines =~= Seq::<Seq<char>>::empty());
        assert(lines.flatten() =~= Seq::<char>::empty());
    } else {
        lemma_body_lines(groups.drop_last());
        let prev = groups.drop_last().map_values(|g: Seq<Seq<char>>| line_spec(g));
        assert(lines =~= prev.push(line_spec(groups.last())));
        lines.lemma_flatten_and_flatten_alt_are_equivalent();
        prev.lemma_flatten_and_flatten_alt_are_equivalent();
        assert(lines.flatten_alt() == lines.drop_last().flatten_alt() + lines.last());
        assert(lines.drop_last() =~= prev);
    }
}

/// The Graph Description Serializer: the exact textual grammar for an
/// ordered list of node-name groups.
pub fn export_dot(groups: &Vec<Vec<String>>) -> (out: String)
    ensures
        out@ == description_spec(groups.deep_view()),
{
    let ghost gs = groups.deep_view();
    let mut out = String::from_str("strict graph meetup_graph {\n");
    out.append("layout=circo\n");
    out.append("size=\"60,60\"\n");
    out.append("oneblock=true\n");
    let mut i: usize = 0;
    proof {
        assert(body_spec(gs.take(0)) =~= Seq::<char>::empty());
        assert(out@ =~= header_spec() + body_spec(gs.take(0)));
    }
    while i < groups.len()
        invariant
            gs == groups.deep_view(),
            gs.len() == groups@.len(),
            i <= gs.len(),
            out@ == header_spec() + body_spec(gs.take(i as int)),
        decreases gs.len() - i,
    {
        let ghost gi = gs[i as int];
        let group = &groups[i];
        proof {
            assert(gi == group.deep_view());
            assert(joined_spec(gi.take(0)) =~= Seq::<char>::empty());
            assert(out@ =~= header_spec() + body_spec(gs.take(i as int)) + joined_spec(gi.take(0)));
        }
        let mut j: usize = 0;
        while j < group.len()
            invariant
                gs == groups.deep_view(),
                gs.len() == groups@.len(),
                i < gs.len(),
                gi == gs[i as int],
                gi == group.deep_view(),
                gi.len() == group@.len(),
                j <= gi.len(),
                out@ == header_spec() + body_spec(gs.take(i as int)) + joined_spec(
                    gi.take(j as int),
                ),
            decreases gi.len() - j,
        {
            let ghost at_start = out@;
            if j > 0 {
                out.append(" -- ");
            }
            push_char(&mut out, '"');
            let disp = display_name(group[j].as_str());
            out.append(disp.as_str());
            push_char(&mut out, '"');
            proof {
                assert(disp@ == upper_seq(gi[j as int]));
                assert(gi.take(j + 1).drop_last() =~= gi.take(j as int));
                assert(gi.take(j + 1).last() == gi[j as int]);
                if j == 0 {
                    assert(joined_spec(gi.take(1)) == quoted_spec(gi[0]));
                    assert(out@ =~= at_start + quoted_spec(gi[0]));
                } else {
                    assert(joined_spec(gi.take(j + 1)) == joined_spec(gi.take(j as int)) + " -- "@
                        + quoted_spec(gi[j as int]));
                    assert(out@ =~= at_start + " -- "@ + quoted_spec(gi[j as int]));
                }
                assert(out@ =~= header_spec() + body_spec(gs.take(i as int)) + joined_spec(
                    gi.take(j + 1),
                ));
            }
            j = j + 1;
        }
        push_char(&mut out, '\n');
        proof {
            assert(gi.take(gi.len() as int) =~= gi);
            assert(gs.take(i + 1).drop_last() =~= gs.take(i as int));
            assert(gs.take(i + 1).last() == gi);
            assert(body_spec(gs.take(i + 1)) == body_spec(gs.take(i as int)) + line_spec(gi));
            assert(out@ =~= header_spec() + body_spec(gs.take(i + 1)));
        }
        i = i + 1;
    }
    push_char(&mut out, '}');
    proof {
        assert(gs.take(gs.len() as int) =~= gs);
        assert(out@ =~= description_spec(gs));
    }
    out
}

/// The RelationGroups of a drained result set, one group of node names
/// per row, or nothing if some row fails extraction.
pub open spec fn groups_spec(rows: Seq<QueryRow>) -> Option<Seq<Seq<Seq<char>>>>
    decreases rows.len(),
{
    if rows.len() == 0 {
        Some(Seq::empty())
    } else {
        match (extract_spec(rows[0].cells@), groups_spec(rows.drop_first())) {
            (Some(g), Some(rest)) => Some(seq![g] + rest),
            _ => None,
        }
    }
}

/// The two-name groups of a drained endpoint query, one group per row
/// from the nodes labelled "n" and "m", or the first row's failure.
pub open spec fn relation_groups_spec(rows: Seq<QueryRow>) -> Result<
    Seq<Seq<Seq<char>>>,
    ExtractError,
>
    decreases rows.len(),
{
    if rows.len() == 0 {
        Ok(Seq::empty())
    } else {
        match relation_spec(rows[0].cells@) {
            Err(e) => Err(e),
            Ok(p) => match relation_groups_spec(rows.drop_first()) {
                Err(e) => Err(e),
                Ok(rest) => Ok(seq![seq![p.0, p.1]] + rest),
            },
        }
    }
}

/// The query/render pipeline's computation: every drained row's node
/// names become one group, and the groups become the graph description.
/// A row whose node lacks a name aborts the whole request, with no
/// partial output.
pub fn generate_graph(rows: &Vec<QueryRow>) -> (r: Result<String, ExtractError>)
    ensures
        match r {
            Ok(out) => (match groups_spec(rows@) {
                Some(gs) => out@ == description_spec(gs),
                None => false,
            }),
            Err(e) => groups_spec(rows@) is None && e == ExtractError::MissingProperty,
        },
{
    let ghost rv = rows@;
    let mut groups: Vec<Vec<String>> = Vec::new();
    let mut i: usize = 0;
    proof {
        assert(rv.skip(0) =~= rv);
        match groups_spec(rv) {
            Some(rest) => {
                assert(groups.deep_view() + rest =~= rest);
            },
            None => {},
        }
    }
    while i < rows.len()
        invariant
            rv == rows@,
            i <= rv.len(),
            groups_spec(rv) == (match groups_spec(rv.skip(i as int)) {
                Some(rest) => Some(groups.deep_view() + rest),
                None => None::<Seq<Seq<Seq<char>>>>,
            }),
        decreases rv.len() - i,
    {
        proof {
            assert(rv.skip(i as int)[0] == rv[i as int]);
            assert(rv.skip(i as int).drop_first() =~= rv.skip(i as int + 1));
        }
        match parse_all_relations(&rows[i]) {
            Err(e) => {
                return Err(e);
            },
            Ok(names) => {
                let ghost before = groups.deep_view();
                let ghost nv = names.deep_view();
                groups.push(names);
                proof {
                    assert(groups.deep_view() =~= before.push(nv));
                    match groups_spec(rv.skip(i as int + 1)) {
                        Some(rest) => {
                            assert(before.push(nv) + rest =~= before + (seq![nv] + rest));
                        },
                        None => {},
                    }
                }
            },
        }
        i = i + 1;
    }
    proof {
        assert(rv.skip(rv.len() as int) =~= Seq::<QueryRow>::empty());
        match groups_spec(rv) {
            Some(_) => {
                assert(groups.deep_view() + Seq::<Seq<Seq<char>>>::empty() =~= groups.deep_view());
            },
            None => {},
        }
    }
    Ok(export_dot(&groups))
}

/// The export pipeline's computation: each drained row of an endpoint
/// query yields the two-name group of its "n" and "m" nodes, and the
/// groups become the graph description.
pub fn export_graph_to_dot(rows: &Vec<QueryRow>) -> (r: Result<String, ExtractError>)
    ensures
        match r {
            Ok(out) => (match relation_groups_spec(rows@) {
                Ok(gs) => out@ == description_spec(gs),
                Err(_) => false,
            }),
            Err(e) => relation_groups_spec(rows@) == Err::<Seq<Seq<Seq<char>>>, ExtractError>(e),
        },
{
    let ghost rv = rows@;
    let mut groups: Vec<Vec<String>> = Vec::new();
    let mut i: usize = 0;
    proof {
        assert(rv.skip(0) =~= rv);
        match relation_groups_spec(rv) {
            Ok(rest) => {
                assert(groups.deep_view() + rest =~= rest);
            },
            Err(_) => {},
        }
    }
    while i < rows.len()
        invariant
            rv == rows@,
            i <= rv.len(),
            relation_groups_spec(rv) == (match relation_groups_spec(rv.skip(i as int)) {
                Ok(rest) => Ok(groups.deep_view() + rest),
                Err(e) => Err::<Seq<Seq<Seq<char>>>, ExtractError>(e),
            }),
        decreases rv.len() - i,
    {
        proof {
            assert(rv.skip(i as int)[0] == rv[i as int]);
            assert(rv.skip(i as int).drop_first() =~= rv.skip(i as int + 1));
        }
        match parse_relation(&rows[i]) {
            Err(e) => {
                return Err(e);
            },
            Ok(pair) => {
                let ghost pv = (pair.0@, pair.1@);
                let mut group: Vec<String> = Vec::new();
                group.push(pair.0);
                group.push(pair.1);
                let ghost before = groups.deep_view();
                proof {
                    assert(group.deep_view() =~= seq![pv.0, pv.1]);
                }
                groups.push(group);
                proof {
                    assert(groups.deep_view() =~= before.push(seq![pv.0, pv.1]));
                    match relation_groups_spec(rv.skip(i as int + 1)) {
                        Ok(rest) => {
                            assert(before.push(seq![pv.0, pv.1]) + rest =~= before + (seq![
                                seq![pv.0, pv.1],
                            ] + rest));
                        },
                        Err(_) => {},
                    }
                }
            },
        }
        i = i + 1;
    }
    proof {
        assert(rv.skip(rv.len() as int) =~= Seq::<QueryRow>::empty());
        match relation_groups_spec(rv) {
            Ok(_) => {
                assert(groups.deep_view() + Seq::<Seq<Seq<char>>>::empty() =~= groups.deep_view());
            },
            Err(_) => {},
        }
    }
    Ok(export_dot(&groups))
}

} // verus!
