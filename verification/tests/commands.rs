use meetgraph::command::ArgError;
use meetgraph::command::CommandKind;
use meetgraph::command::classify_command;
use meetgraph::command::extra_args_arg;
use meetgraph::command::CommandOption;
use meetgraph::command::OptionValue;
use meetgraph::command::QueryReply;
use meetgraph::command::graph_command;
use meetgraph::command::graph_query_command;
use meetgraph::command::query_command;
use meetgraph::command::query_reply;
use meetgraph::render::RenderError;
use meetgraph::render::render_outcome;
use meetgraph::render::renderer_args;
use meetgraph::render::split_extra_args;
use meetgraph::text::display_name;
use meetgraph::text::normalize_name;

fn text_option(name: &str, value: &str) -> CommandOption {
    CommandOption { name: name.to_string(), value: OptionValue::Text(value.to_string()) }
}

#[test]
fn normalization_folds_case_to_one_key() {
    assert_eq!(normalize_name("Alice"), "alice");
    assert_eq!(normalize_name("alice"), "alice");
    assert_eq!(normalize_name("Alice"), normalize_name("alice"));
}

#[test]
fn normalization_is_idempotent_on_values() {
    let once = normalize_name("MiXeD CaSe 42!");
    let twice = normalize_name(&once);
    assert_eq!(once, twice);
}

#[test]
fn display_form_is_upper_case() {
    assert_eq!(display_name("alice"), "ALICE");
    assert_eq!(display_name("Bob-42"), "BOB-42");
}

#[test]
fn command_names_dispatch_to_their_commands() {
    assert_eq!(classify_command(&"graph".to_string()), CommandKind::Graph);
    assert_eq!(classify_command(&"graphquery".to_string()), CommandKind::GraphQuery);
    assert_eq!(classify_command(&"query".to_string()), CommandKind::RawQuery);
    assert_eq!(classify_command(&"whoami".to_string()), CommandKind::Unknown);
}

#[test]
fn graph_command_builds_person_query() {
    let options = vec![text_option("who", "Bob"), text_option("extra_args", "-x")];
    let q = graph_command(&options).unwrap();
    assert_eq!(q.text, "MATCH (n {name: $name})-[]->(m) RETURN n, m");
    assert_eq!(q.params, vec![("name".to_string(), "bob".to_string())]);
}

#[test]
fn graph_command_without_who_fails() {
    let options = vec![text_option("extra_args", "-x")];
    assert!(matches!(graph_command(&options), Err(ArgError::Missing)));
}

#[test]
fn graph_command_mistyped_who_fails() {
    let options = vec![CommandOption { name: "who".to_string(), value: OptionValue::Other }];
    assert!(matches!(graph_command(&options), Err(ArgError::Missing)));
}

#[test]
fn graph_query_command_passes_text_verbatim() {
    let options = vec![text_option("query", "MATCH (n) RETURN n")];
    let q = graph_query_command(&options).unwrap();
    assert_eq!(q.text, "MATCH (n) RETURN n");
    assert!(q.params.is_empty());
}

#[test]
fn query_command_yields_query_text() {
    let options = vec![text_option("query", "SHOW DATABASES")];
    assert_eq!(query_command(&options).unwrap(), "SHOW DATABASES");
    let none: Vec<CommandOption> = vec![];
    assert!(matches!(query_command(&none), Err(ArgError::Missing)));
}

#[test]
fn short_query_reply_is_code_block() {
    let text = "two rows".to_string();
    match query_reply(&text) {
        QueryReply::CodeBlock(s) => assert_eq!(s, "```\ntwo rows```"),
        _ => panic!("expected inline reply"),
    }
}

#[test]
fn reply_length_boundary() {
    let at_limit = "x".repeat(1990);
    assert!(matches!(query_reply(&at_limit), QueryReply::CodeBlock(_)));
    let over_limit = "x".repeat(1991);
    match query_reply(&over_limit) {
        QueryReply::Attachment(s) => assert_eq!(s, over_limit),
        _ => panic!("expected attachment"),
    }
}

#[test]
fn extra_args_absent_means_none() {
    assert!(split_extra_args(&None).is_empty());
}

#[test]
fn extra_args_split_at_whitespace() {
    let toks = split_extra_args(&Some("-Gsize=10 -v".to_string()));
    assert_eq!(toks, vec!["-Gsize=10".to_string(), "-v".to_string()]);
    let tabbed = split_extra_args(&Some("-a\t-b\n-c".to_string()));
    assert_eq!(tabbed, vec!["-a".to_string(), "-b".to_string(), "-c".to_string()]);
}

#[test]
fn extra_args_drop_empty_tokens() {
    let toks = split_extra_args(&Some("a  b".to_string()));
    assert_eq!(toks, vec!["a".to_string(), "b".to_string()]);
    assert!(split_extra_args(&Some("".to_string())).is_empty());
    assert!(split_extra_args(&Some("   ".to_string())).is_empty());
    let padded = split_extra_args(&Some(" a ".to_string()));
    assert_eq!(padded, vec!["a".to_string()]);
}

#[test]
fn extra_args_option_reads_text_only() {
    let with = vec![text_option("who", "Bob"), text_option("extra_args", "-v")];
    assert_eq!(extra_args_arg(&with), Some("-v".to_string()));
    let mistyped = vec![CommandOption {
        name: "extra_args".to_string(),
        value: OptionValue::Other,
    }];
    assert_eq!(extra_args_arg(&mistyped), None);
    let absent = vec![text_option("who", "Bob")];
    assert_eq!(extra_args_arg(&absent), None);
}

#[test]
fn renderer_args_put_raster_flag_first() {
    let args = renderer_args(&vec!["-Gsize=10".to_string()]);
    assert_eq!(args, vec!["-Tpng".to_string(), "-Gsize=10".to_string()]);
    assert_eq!(renderer_args(&vec![]), vec!["-Tpng".to_string()]);
}

#[test]
fn renderer_round_trip_returns_bytes_exactly() {
    let echoed = vec![0x89u8, b'P', b'N', b'G', 0x0d, 0x0a];
    assert_eq!(render_outcome(Some(echoed.clone())), Ok(echoed));
}

#[test]
fn unspawnable_renderer_is_reported() {
    assert_eq!(render_outcome(None), Err(RenderError::SpawnFailed));
    assert_eq!(RenderError::SpawnFailed.message(), "failed to start the renderer");
}

#[test]
fn argument_error_message() {
    assert_eq!(ArgError::Missing.message(), "missing argument");
}
