use agentic_api::error::Error;
use agentic_api::launch::{launch, server_command, Mode};

#[test]
fn standalone_needs_a_base() {
    match launch(Mode::Standalone { llm_api_base: None }) {
        Err(Error::Config(message)) => assert_eq!(
            message,
            "standalone mode requires --llm-api-base; use `agentic-api serve <model>` for integrated mode"
        ),
        other => panic!("{other:?}"),
    }
}

#[test]
fn standalone_normalises_the_base() {
    let plan = launch(Mode::Standalone {
        llm_api_base: Some("http://host:8000/v1/".to_owned()),
    })
    .unwrap();
    assert_eq!(plan.llm_api_base, "http://host:8000");
    assert!(plan.vllm_args.is_none());
}

#[test]
fn serving_asks_the_port_it_starts() {
    for port in [0u16, 1, 7, 8000, 65535] {
        let plan = launch(Mode::Serve {
            model: "some/model".to_owned(),
            port,
            vllm_args: vec!["--dtype".to_owned(), "auto".to_owned()],
        })
        .unwrap();
        let port = port.to_string();
        assert_eq!(plan.llm_api_base, format!("http://127.0.0.1:{port}"));
        let expected = ["--model", "some/model", "--port", port.as_str(), "--dtype", "auto"];
        assert_eq!(plan.vllm_args.unwrap(), expected);
    }
}

#[test]
fn the_server_is_a_python_module() {
    let command = server_command(vec!["--model".to_owned(), "m".to_owned()]);
    assert_eq!(command.program, "python");
    assert_eq!(command.args, ["-m", "vllm.entrypoints.openai.api_server", "--model", "m"]);
}
