//! The two ways to start the gateway: in front of a server that runs already, or
//! together with one.

use vstd::prelude::*;

use crate::config::{normalize_base_url, normalized};
use crate::error::Error;
use crate::text::{decimal, decimal_of, digit, ends_with, law_decimal_reads_back, number_of};

verus! {

/// How the gateway is started.
#[derive(Debug)]
pub enum Mode {
    /// In front of the server at this base URL.
    Standalone { llm_api_base: Option<String> },
    /// Together with a server for this model on this port, which gets further
    /// arguments.
    Serve { model: String, port: u16, vllm_args: Vec<String> },
}

/// What a start comes to: the base URL of the upstream server, and the arguments
/// of the server to start, if there is one to start.
#[derive(Debug)]
pub struct Launch {
    pub llm_api_base: String,
    pub vllm_args: Option<Vec<String>>,
}

/// A command and its arguments.
#[derive(Debug)]
pub struct ServerCommand {
    pub program: String,
    pub args: Vec<String>,
}

/// Strings as plain text.
pub open spec fn texts(strings: Seq<String>) -> Seq<Seq<char>> {
    Seq::new(strings.len(), |i: int| strings[i]@)
}

/// The address of a server on this machine.
pub open spec fn local_url(port: u16) -> Seq<char> {
    "http://127.0.0.1:"@ + decimal(port as nat)
}

/// The arguments of a server for this model on this port.
pub open spec fn server_args(model: Seq<char>, port: u16, more: Seq<Seq<char>>) -> Seq<Seq<char>> {
    seq!["--model"@, model, "--port"@, decimal(port as nat)] + more
}

/// Works out what a start comes to.
pub fn launch(mode: Mode) -> (r: Result<Launch, Error>)
    ensures
        match mode {
            Mode::Standalone { llm_api_base: None } => r matches Err(Error::Config(message))
                && message@
                == "standalone mode requires --llm-api-base; use `agentic-api serve <model>` for integrated mode"@,
            Mode::Standalone { llm_api_base: Some(base) } => r matches Ok(launch)
                && launch.llm_api_base@ == normalized(base@) && launch.vllm_args is None,
            Mode::Serve { model, port, vllm_args } => r matches Ok(launch) && launch.llm_api_base@
                == normalized(local_url(port)) && (launch.vllm_args matches Some(args) && texts(
                args@,
            ) == server_args(model@, port, texts(vllm_args@))),
        },
        mode matches Mode::Serve { model, port, vllm_args } ==> (r matches Ok(Launch {
            llm_api_base,
            vllm_args: Some(args),
        }) && {
            &&& llm_api_base@ == "http://127.0.0.1:"@ + decimal(port as nat)
            &&& args@.len() == 4 + vllm_args@.len()
            &&& args@[0]@ == "--model"@
            &&& args@[1]@ == model@
            &&& args@[2]@ == "--port"@
            &&& args@[3]@ == decimal(port as nat)
            &&& forall|i: int|
                0 <= i < vllm_args@.len() ==> #[trigger] args@[4 + i]@ == vllm_args@[i]@
        }),
{
    match mode {
        Mode::Standalone { llm_api_base } => match llm_api_base {
            Some(base) => Ok(
                Launch { llm_api_base: normalize_base_url(base.as_str()), vllm_args: None },
            ),
            None => Err(
                Error::Config(
                    "standalone mode requires --llm-api-base; use `agentic-api serve <model>` for integrated mode".to_owned(),
                ),
            ),
        },
        Mode::Serve { model, port, vllm_args } => {
            let mut url = "http://127.0.0.1:".to_owned();
            url.append(decimal_of(port).as_str());
            proof {
                law_served_port_is_asked(port);
            }
            let mut args: Vec<String> = Vec::new();
            let ghost model_text = model@;
            let ghost more = texts(vllm_args@);
            args.push("--model".to_owned());
            args.push(model);
            args.push("--port".to_owned());
            args.push(decimal_of(port));
            let mut rest = vllm_args;
            args.append(&mut rest);
            assert(texts(args@) =~= server_args(model_text, port, more));
            Ok(
                Launch {
                    llm_api_base: normalize_base_url(url.as_str()),
                    vllm_args: Some(args),
                },
            )
        },
    }
}

/// The command that starts an upstream server with these arguments.
pub fn server_command(args: Vec<String>) -> (r: ServerCommand)
    ensures
        r.program@ == "python"@,
        texts(r.args@) == seq!["-m"@, "vllm.entrypoints.openai.api_server"@] + texts(args@),
        r.args@.len() == 2 + args@.len(),
        r.args@[0]@ == "-m"@,
        r.args@[1]@ == "vllm.entrypoints.openai.api_server"@,
        forall|i: int| 0 <= i < args@.len() ==> #[trigger] r.args@[2 + i]@ == args@[i]@,
{
    let ghost given = texts(args@);
    let mut all: Vec<String> = Vec::new();
    all.push("-m".to_owned());
    all.push("vllm.entrypoints.openai.api_server".to_owned());
    let mut rest = args;
    all.append(&mut rest);
    assert(texts(all@) =~= seq!["-m"@, "vllm.entrypoints.openai.api_server"@] + given);
    ServerCommand { program: "python".to_owned(), args: all }
}

/// A server that is started together with the gateway is asked at the very port
/// that it is told to listen on.
pub proof fn law_served_port_is_asked(port: u16)
    ensures
        normalized(local_url(port)) == local_url(port),
{
    reveal_strlit("http://127.0.0.1:");
    reveal_strlit("/v1");
    reveal_strlit("0123456789");
    let url = local_url(port);
    let n = port as nat;
    let number = decimal(n);
    assert(number.last() == digit(n % 10));
    if n >= 10 {
        assert(decimal(n / 10).last() == digit((n / 10) % 10));
    }
    assert(url.last() != '/');
    assert(url[url.len() - 2] != 'v');
    if ends_with(url, "/v1"@) {
        assert(url.skip(url.len() - 3)[1] == url[url.len() - 2]);
    }
}

/// A server that is started together with the gateway is given the model, the
/// port and then every further argument, in order and as it stands.
pub proof fn law_every_further_argument_is_handed_on(
    model: Seq<char>,
    port: u16,
    more: Seq<Seq<char>>,
)
    ensures
        server_args(model, port, more).len() == more.len() + 4,
        server_args(model, port, more)[0] == "--model"@,
        server_args(model, port, more)[1] == model,
        server_args(model, port, more)[2] == "--port"@,
        number_of(server_args(model, port, more)[3]) == port,
        forall|i: int|
            0 <= i < more.len() ==> #[trigger] server_args(model, port, more)[4 + i] == more[i],
{
    law_decimal_reads_back(port as nat);
}

/// Strings as plain text are the strings, one for one.
pub proof fn law_texts_are_the_strings(strings: Seq<String>)
    ensures
        texts(strings).len() == strings.len(),
        forall|i: int| 0 <= i < strings.len() ==> #[trigger] texts(strings)[i] == strings[i]@,
{
}

/// The server is asked on this machine, at the port in decimal and nothing else.
pub proof fn law_local_server_is_asked(port: u16)
    ensures
        local_url(port).take(17) == "http://127.0.0.1:"@,
        number_of(local_url(port).skip(17)) == port,
        local_url(port).skip(17)[0] == '0' ==> port == 0,
{
    reveal_strlit("http://127.0.0.1:");
    law_decimal_reads_back(port as nat);
    assert(local_url(port).take(17) =~= "http://127.0.0.1:"@);
    assert(local_url(port).skip(17) =~= decimal(port as nat));
}

} // verus!
