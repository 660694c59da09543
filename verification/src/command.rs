//! Decisions of the three chat commands.
//!
//! The chat gateway resolves a command's options and hands them over as
//! plain name/value pairs; the library decides which store read to
//! issue, or which argument error to surface, and how a raw query
//! result is returned. Session handling and command registration belong
//! to the gateway, not to the library.

use vstd::prelude::*;

use crate::text::lower_seq;
use crate::text::normalize_name;

verus! {

/// A required command argument was missing or carried the wrong type.
/// It is surfaced to the user; there is no retry.
#[derive(Debug, PartialEq, Eq, Structural, Clone, Copy)]
pub enum ArgError {
    Missing,
}

impl ArgError {
    /// The user-facing wording of the error.
    pub fn message(&self) -> (r: String)
        ensures
            r@ == "missing argument"@,
    {
        String::from_str("missing argument")
    }
}

/// The three commands the gateway offers, or none of them.
#[derive(Debug, PartialEq, Eq, Structural, Clone, Copy)]
pub enum CommandKind {
    /// Render one person's connections.
    Graph,
    /// Render the subgraph an arbitrary query returns.
    GraphQuery,
    /// Run a raw query and return its textual result.
    RawQuery,
    /// A name no command answers to.
    Unknown,
}

/// The dispatch decision for one incoming command name.
pub fn classify_command(name: &String) -> (r: CommandKind)
    ensures
        name@ == "graph"@ ==> r == CommandKind::Graph,
        name@ == "graphquery"@ ==> r == CommandKind::GraphQuery,
        name@ == "query"@ ==> r == CommandKind::RawQuery,
        name@ != "graph"@ && name@ != "graphquery"@ && name@ != "query"@ ==> r
            == CommandKind::Unknown,
{
    proof {
        reveal_strlit("graph");
        reveal_strlit("graphquery");
        reveal_strlit("query");
        assert("graph"@.len() == 5 && "graphquery"@.len() == 10 && "query"@.len() == 5);
        assert("graph"@[0] == 'g' && "query"@[0] == 'q');
        assert("graph"@ != "graphquery"@ && "graph"@ != "query"@ && "graphquery"@ != "query"@);
    }
    if *name == String::from_str("graph") {
        CommandKind::Graph
    } else if *name == String::from_str("graphquery") {
        CommandKind::GraphQuery
    } else if *name == String::from_str("query") {
        CommandKind::RawQuery
    } else {
        CommandKind::Unknown
    }
}

/// A resolved option value: a text argument, or a value of some other
/// resolved type, which no command here accepts.
pub enum OptionValue {
    Text(String),
    Other,
}

/// One resolved command option: its name and its resolved value.
pub struct CommandOption {
    pub name: String,
    pub value: OptionValue,
}

/// One read request for the graph store: the query text and its named
/// text parameters.
pub struct StoreQuery {
    pub text: String,
    pub params: Vec<(String, String)>,
}

/// The first option with the given name, if any.
pub open spec fn find_option_spec(options: Seq<CommandOption>, name: Seq<char>) -> Option<
    OptionValue,
>
    decreases options.len(),
{
    if options.len() == 0 {
        None
    } else if options[0].name@ == name {
        Some(options[0].value)
    } else {
        find_option_spec(options.drop_first(), name)
    }
}

/// The text argument under the given name: the argument error when the
/// option is absent or resolved to a non-text value.
pub open spec fn text_arg_spec(options: Seq<CommandOption>, name: Seq<char>) -> Result<
    Seq<char>,
    ArgError,
> {
    match find_option_spec(options, name) {
        Some(OptionValue::Text(s)) => Ok(s@),
        _ => Err(ArgError::Missing),
    }
}

/// The first option with the given name, by scanning in order.
fn find_option<'a>(options: &'a Vec<CommandOption>, name: &String) -> (r: Option<&'a OptionValue>)
    ensures
        match r {
            Some(v) => find_option_spec(options@, name@) == Some(*v),
            None => find_option_spec(options@, name@) is None,
        },
{
    let mut i: usize = 0;
    proof {
        assert(options@.skip(0) =~= options@);
    }
    while i < options.len()
        invariant
            i <= options@.len(),
            find_option_spec(options@, name@) == find_option_spec(
                options@.skip(i as int),
                name@,
            ),
        decreases options@.len() - i,
    {
        proof {
            assert(options@.skip(i as int)[0] == options@[i as int]);
            assert(options@.skip(i as int).drop_first() =~= options@.skip(i as int + 1));
        }
        if options[i].name == *name {
            return Some(&options[i].value);
        }
        i = i + 1;
    }
    proof {
        assert(options@.skip(options@.len() as int) =~= Seq::<CommandOption>::empty());
    }
    None
}

/// The text argument under the given name, or the argument error.
fn text_arg(options: &Vec<CommandOption>, name: &String) -> (r: Result<String, ArgError>)
    ensures
        (match r {
            Ok(t) => Ok(t@),
            Err(e) => Err(e),
        }) == text_arg_spec(options@, name@),
{
    match find_option(options, name) {
        Some(v) => match v {
            OptionValue::Text(s) => Ok(s.clone()),
            OptionValue::Other => Err(ArgError::Missing),
        },
        None => Err(ArgError::Missing),
    }
}

/// The store read of the graph command: one person's outgoing
/// connections, matched by the person's normalized name — the ASCII
/// lower-case fold of the required "who" argument.
pub fn graph_command(options: &Vec<CommandOption>) -> (r: Result<StoreQuery, ArgError>)
    ensures
        match r {
            Ok(q) => (match text_arg_spec(options@, "who"@) {
                Ok(who) => {
                    &&& q.text@ == "MATCH (n {name: $name})-[]->(m) RETURN n, m"@
                    &&& q.params.deep_view() == seq![("name"@, lower_seq(who))]
                },
                Err(_) => false,
            }),
            Err(e) => text_arg_spec(options@, "who"@) is Err && e == ArgError::Missing,
        },
{
    let who_name = String::from_str("who");
    match text_arg(options, &who_name) {
        Err(e) => Err(e),
        Ok(who) => {
            let norm = normalize_name(who.as_str());
            let key = String::from_str("name");
            let mut params: Vec<(String, String)> = Vec::new();
            params.push((key, norm));
            proof {
                assert(params.deep_view() =~= seq![("name"@, lower_seq(who@))]);
            }
            Ok(
                StoreQuery {
                    text: String::from_str("MATCH (n {name: $name})-[]->(m) RETURN n, m"),
                    params,
                },
            )
        },
    }
}

/// The store read of the graph-query command: the caller's own query
/// text, taken verbatim from the required "query" argument, with no
/// parameters.
pub fn graph_query_command(options: &Vec<CommandOption>) -> (r: Result<StoreQuery, ArgError>)
    ensures
        match r {
            Ok(q) => (match text_arg_spec(options@, "query"@) {
                Ok(t) => q.text@ == t && q.params.deep_view() == Seq::<(Seq<char>, Seq<char>)>::empty(),
                Err(_) => false,
            }),
            Err(e) => text_arg_spec(options@, "query"@) is Err && e == ArgError::Missing,
        },
{
    let query_name = String::from_str("query");
    match text_arg(options, &query_name) {
        Err(e) => Err(e),
        Ok(t) => {
            let params: Vec<(String, String)> = Vec::new();
            proof {
                assert(params.deep_view() =~= Seq::<(Seq<char>, Seq<char>)>::empty());
            }
            Ok(StoreQuery { text: t, params })
        },
    }
}

/// The raw-query command's decision: the query text fed to the store's
/// own shell, taken from the required "query" argument.
pub fn query_command(options: &Vec<CommandOption>) -> (r: Result<String, ArgError>)
    ensures
        (match r {
            Ok(t) => Ok(t@),
            Err(e) => Err(e),
        }) == text_arg_spec(options@, "query"@),
{
    let query_name = String::from_str("query");
    text_arg(options, &query_name)
}

/// The optional renderer-flag argument of a command: the text of the
/// "extra_args" option. The option is not required, so an absent option
/// and one resolved to a non-text value both mean no extra flags; a
/// malformed optional argument does not fail the render.
pub fn extra_args_arg(options: &Vec<CommandOption>) -> (r: Option<String>)
    ensures
        match find_option_spec(options@, "extra_args"@) {
            Some(OptionValue::Text(s)) => (match r {
                Some(t) => t@ == s@,
                None => false,
            }),
            _ => r is None,
        },
{
    let name = String::from_str("extra_args");
    match find_option(options, &name) {
        Some(v) => match v {
            OptionValue::Text(s) => Some(s.clone()),
            OptionValue::Other => None,
        },
        None => None,
    }
}

/// How a raw query result goes back through the chat gateway: inline in
/// a code block, or attached as a file when it is too long for a
/// message.
pub enum QueryReply {
    Attachment(String),
    CodeBlock(String),
}

/// The reply for a raw query result: output longer than 1990 characters
/// is attached as a file holding the text itself; shorter output is
/// wrapped in a code block.
pub fn query_reply(text: &String) -> (r: QueryReply)
    ensures
        text@.len() > 1990 ==> r == QueryReply::Attachment(*text),
        text@.len() <= 1990 ==> (match r {
            QueryReply::CodeBlock(s) => s@ == "```\n"@ + text@ + "```"@,
            _ => false,
        }),
{
    let n = text.as_str().unicode_len();
    if n > 1990 {
        QueryReply::Attachment(text.clone())
    } else {
        let mut s = String::from_str("```\n");
        s.append(text.as_str());
        s.append("```");
        QueryReply::CodeBlock(s)
    }
}

} // verus!
