use opi_coding_agent::rpc::{
    ERR_AGENT_BUSY, ERR_COMPACTION_FAILED, ERR_EXTENSION_COMMAND_NOT_HANDLED,
    ERR_HARNESS_UNAVAILABLE,
};

#[test]
fn error_code_constants_pin_documented_wire_values() {
    assert_eq!(ERR_AGENT_BUSY, "agent_busy");
    assert_eq!(ERR_HARNESS_UNAVAILABLE, "harness_unavailable");
    assert_eq!(ERR_COMPACTION_FAILED, "compaction_failed");
    assert_eq!(
        ERR_EXTENSION_COMMAND_NOT_HANDLED,
        "extension_command_not_handled"
    );
}
