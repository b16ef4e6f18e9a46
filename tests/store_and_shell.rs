use mer_driver::{
    assemble_model, chars_of, require_models, respond_words, string_of, Category, CliReplManager,
    DALArgs, DatabaseDriver, MEALArgs, ParamMap, Reply, SurrealDriver, DAL,
};

fn dal_args(url: &str) -> DALArgs {
    DALArgs {
        connection_url: url.to_string(),
        username: "driver".to_string(),
        password: "M0d3lDr1v3r".to_string(),
    }
}

#[test]
fn test_dal_create() {
    let dal = DAL::create("surreal", dal_args("localhost:4321"));
    assert!(dal.is_ok());
    let _ = dal.unwrap();
}

#[test]
fn dal_unknown_backend() {
    match DAL::create("postgres", dal_args("localhost:4321")) {
        Err(m) => assert_eq!(m, "Unknown DAL driver type: postgres"),
        Ok(_) => panic!("expected an error"),
    }
}

#[test]
fn surreal_settings() {
    let d = <SurrealDriver as DatabaseDriver>::new(dal_args("localhost:4321"));
    assert_eq!(d.namespace, "ModelExecutorRuntimeNS");
    assert_eq!(d.database, "ModelExecutorRuntimeDB");
    assert!(d.uses_plain_websocket());
    assert!(SurrealDriver::from_args(dal_args("127.0.0.1:8000")).uses_plain_websocket());
    assert!(SurrealDriver::from_args(dal_args("0.0.0.0:8000")).uses_plain_websocket());
    assert!(!SurrealDriver::from_args(dal_args("db.example.com:443")).uses_plain_websocket());
    assert!(!SurrealDriver::from_args(dal_args("localhost")).uses_plain_websocket());
}

#[test]
fn model_records_make_a_descriptor() {
    let mut st = ParamMap::new();
    st.insert("name".to_string(), "m".to_string());
    let args = assemble_model(&"42".to_string(), st, ParamMap::new(), ParamMap::new());
    assert_eq!(args.field(Category::Identity, "uid").unwrap(), "42");
    assert_eq!(args.field(Category::Identity, "name").unwrap(), "m");
    assert_eq!(args.meal_config.len(), 3);
    let none: Vec<MEALArgs> = Vec::new();
    assert_eq!(require_models(none).err().unwrap(), "No available models found in the DB");
    assert_eq!(require_models(vec![args]).unwrap().len(), 1);
}

fn say(line: &str, allow: bool) -> Result<Reply, String> {
    let mut shell = CliReplManager::new(allow);
    shell.set_line(line.to_string());
    shell.respond()
}

fn reply(text: &str, quit: bool) -> Result<Reply, String> {
    Ok(Reply { text: text.to_string(), quit })
}

#[test]
fn shell_commands() {
    assert_eq!(say("version", false), reply("MER-Driver version: 0.1.0\n", false));
    assert_eq!(say("  ping m1 ", false), reply("Checking if model m1 is available...\n", false));
    assert_eq!(
        say("execute m1 'hello world'", false),
        reply("Executing model m1 with input hello world...\n", false)
    );
    assert_eq!(
        say("feedback m1 on", false),
        reply("Toggling feedback learning for model m1...\n", false)
    );
    assert_eq!(say("quit", false), reply("Exiting Model-Executor Runtime-CLI ...\n", true));
    assert_eq!(say("", false), reply("", false));
}

#[test]
fn shell_errors() {
    assert_eq!(say("frobnicate", false), Err("error: unrecognized subcommand 'frobnicate'\n".to_string()));
    assert_eq!(say("ping", false), Err("error: missing arguments for 'ping'\n".to_string()));
    assert_eq!(say("ping a b", false), Err("error: unexpected argument 'b' found\n".to_string()));
    assert_eq!(say("execute 'open", false), Err("Error: Invalid quoting".to_string()));
    assert_eq!(say("modify", false), Err("error: unrecognized subcommand 'modify'\n".to_string()));
    assert_eq!(say("modify", true), Err("error: 'modify' is not implemented yet\n".to_string()));
    assert_eq!(say("ls", false), Err("error: 'ls' is not implemented yet\n".to_string()));
}

#[test]
fn shell_words_directly() {
    let words = vec!["model-execute".to_string(), "m".to_string(), "x y".to_string()];
    assert_eq!(respond_words(&words, false), reply("Executing model m with input x y...\n", false));
}

#[test]
fn chars_round_trip() {
    let v = chars_of("héllo");
    assert_eq!(v.len(), 5);
    assert_eq!(string_of(&v), "héllo");
}
