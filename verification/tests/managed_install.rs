use spine_host::json::Json;
use spine_host::managed_install::{
    executable_identity_from_bytes, managed_codex_bin, managed_codex_file_name,
    managed_codex_version, version_from_responses, ProbeError, ProbeOutput,
};

fn output(stdout: &str) -> ProbeOutput {
    ProbeOutput {
        success: true,
        status: String::from("exit status: 0"),
        stdout: Some(String::from(stdout)),
    }
}

#[test]
fn product_probe_does_not_confuse_upstream_compatibility_with_product_version() {
    let stdout = "{\"jsonrpc\":\"2.0\",\"id\":1,\"result\":{\"serverInfo\":{\"name\":\"codex-mcp-server\",\"version\":\"0.4.0\"}}}\n";
    assert_eq!(
        managed_codex_version("codex", &output(stdout)),
        Ok(String::from("0.4.0"))
    );
}

#[test]
fn executable_identity_uses_binary_contents() {
    let old = executable_identity_from_bytes(b"old");
    let same = executable_identity_from_bytes(b"old");
    let new = executable_identity_from_bytes(b"new");

    assert_eq!(old, same);
    assert_ne!(old, new);
}

#[test]
fn an_identity_is_the_sha_256_digest() {
    let digest = executable_identity_from_bytes(b"abc").digest;
    assert_eq!(digest[..4], [0xba, 0x78, 0x16, 0xbf]);
    assert_eq!(digest[28..], [0xf2, 0x00, 0x15, 0xad]);
}

#[test]
fn the_binary_lies_in_the_current_standalone_package() {
    assert_eq!(managed_codex_file_name(true), "codex.exe");
    assert_eq!(
        managed_codex_bin(false),
        vec!["packages", "standalone", "current", "codex"]
    );
    assert_eq!(managed_codex_bin(true)[3], "codex.exe");
}

#[test]
fn the_first_answer_to_the_request_counts() {
    let stdout = "{\"id\":2,\"result\":{\"serverInfo\":{\"version\":\"9\"}}}\r\n{\"id\":1,\"result\":{\"serverInfo\":{\"version\":\"1.0\"}}}\r\n{\"id\":1,\"result\":{\"serverInfo\":{\"version\":\"2.0\"}}}";
    assert_eq!(
        managed_codex_version("codex", &output(stdout)),
        Ok(String::from("1.0"))
    );
}

#[test]
fn a_probe_without_a_version_is_refused() {
    for stdout in [
        "",
        "{\"id\":2}\n",
        "{\"id\":1.0,\"result\":{\"serverInfo\":{\"version\":\"1\"}}}\n",
        "{\"id\":1,\"result\":{\"serverInfo\":{\"version\":\"\"}}}\n",
        "{\"id\":1,\"result\":{\"serverInfo\":{\"version\":4}}}\n",
        "{\"id\":1,\"result\":[]}\n{\"id\":1,\"result\":{\"serverInfo\":{\"version\":\"1\"}}}\n",
    ] {
        assert_eq!(
            managed_codex_version("codex", &output(stdout)),
            Err(ProbeError::NoVersion),
            "{stdout}"
        );
    }
    assert_eq!(
        ProbeError::NoVersion.message(),
        "managed Codex MCP initialization did not return a product version"
    );
}

#[test]
fn every_line_of_a_probe_must_be_json() {
    let stdout = "{\"id\":1,\"result\":{\"serverInfo\":{\"version\":\"1\"}}}\n\nmore\n";
    let error = managed_codex_version("codex", &output(stdout)).expect_err("malformed");
    assert_eq!(error, ProbeError::Malformed);
    assert_eq!(
        error.message(),
        "managed Codex product probe returned malformed JSON-RPC"
    );
}

#[test]
fn a_failed_or_unreadable_probe_names_the_binary() {
    let failed = ProbeOutput {
        success: false,
        status: String::from("exit status: 3"),
        stdout: None,
    };
    assert_eq!(
        managed_codex_version("/home/codex", &failed).expect_err("failed").message(),
        "managed Codex binary /home/codex exited with status exit status: 3"
    );
    let unreadable = ProbeOutput {
        success: true,
        status: String::from("exit status: 0"),
        stdout: None,
    };
    assert_eq!(
        managed_codex_version("/home/codex", &unreadable).expect_err("unreadable").message(),
        "managed Codex version was not utf-8: /home/codex"
    );
}

#[test]
fn responses_are_searched_in_order() {
    let response = Json::parse(b"{\"id\":1,\"result\":{\"serverInfo\":{\"version\":\"7\"}}}");
    let responses = vec![Json::Null, response.expect("json")];
    assert_eq!(version_from_responses(&responses), Ok(String::from("7")));
}
