//! The parent's predefined features and the connector capability each one needs.
use crate::text::cat;
use vstd::prelude::*;

verus! {

/// A feature the parent knows, with the connector capability it requires, if any.
#[derive(Debug, Clone, Copy, PartialEq, Eq)]
pub struct FeatureDefinition {
    pub key: &'static str,
    pub description: &'static str,
    pub connector_capability: Option<&'static str>,
}

/// The registry as (key, required connector capability) pairs, in registry order.
pub open spec fn registry_spec() -> Seq<(Seq<char>, Option<Seq<char>>)> {
    seq![
        ("gateway.telegram"@, None),
        ("gateway.llm_router"@, None),
        ("jobs.queue"@, None),
        ("jobs.cancel"@, Some("connector.cancel"@)),
        ("jobs.history"@, None),
        ("threads.named"@, None),
        ("threads.cwd"@, Some("threads.cwd"@)),
        ("threads.watch"@, Some("connector.stream"@)),
        ("attachments.images"@, Some("attachments.images"@)),
        ("attachments.files"@, None),
        ("mac.screenshot"@, None),
        ("mac.terminal"@, None),
        ("connector.health"@, Some("connector.health"@)),
        ("connector.run"@, Some("connector.run"@)),
        ("connector.status"@, Some("connector.status"@)),
        ("connector.capabilities"@, Some("connector.capabilities"@)),
    ]
}

/// The description of each registry entry, in registry order.
pub open spec fn registry_descriptions() -> Seq<Seq<char>> {
    seq![
        "Telegram polling and message delivery."@,
        "Parent-level natural language command routing and reply polish."@,
        "Durable per-thread request queues."@,
        "Cancel a running connector job when supported."@,
        "Safe job receipts without raw prompt/response transcripts."@,
        "Named mobile threads with connector, cwd, and feature preferences."@,
        "Per-thread working directory routing."@,
        "Live progress/status updates for a thread."@,
        "Download mobile images and pass private file paths to connectors."@,
        "Send local files back to the mobile gateway."@,
        "Capture the current Mac display when the gateway has permission."@,
        "Parent-owned persistent PTY sessions."@,
        "Connector health checks before config promotion."@,
        "Run a user request through the selected connector."@,
        "Ask a connector for runtime status when supported."@,
        "Ask a connector to report its supported feature set."@,
    ]
}

/// Whether `key` names a feature of the registry.
pub open spec fn is_registered(key: Seq<char>) -> bool {
    exists|i: int| 0 <= i < registry_spec().len() && registry_spec()[i].0 == key
}

/// The view of one definition: key and capability.
pub open spec fn definition_view(d: FeatureDefinition) -> (Seq<char>, Option<Seq<char>>) {
    (
        d.key@,
        match d.connector_capability {
            Some(c) => Some(c@),
            None => None,
        },
    )
}

fn def(
    key: &'static str,
    description: &'static str,
    connector_capability: Option<&'static str>,
) -> (d: FeatureDefinition)
    ensures
        d.key == key,
        d.description == description,
        d.connector_capability == connector_capability,
{
    FeatureDefinition { key, description, connector_capability }
}

/// Every feature the parent knows, in registry order.
pub fn registry() -> (r: Vec<FeatureDefinition>)
    ensures
        r@.map_values(|d: FeatureDefinition| definition_view(d)) == registry_spec(),
        r@.map_values(|d: FeatureDefinition| d.description@) == registry_descriptions(),
{
    let r = vec![
        def("gateway.telegram", "Telegram polling and message delivery.", None),
        def(
            "gateway.llm_router",
            "Parent-level natural language command routing and reply polish.",
            None,
        ),
        def("jobs.queue", "Durable per-thread request queues.", None),
        def(
            "jobs.cancel",
            "Cancel a running connector job when supported.",
            Some("connector.cancel"),
        ),
        def("jobs.history", "Safe job receipts without raw prompt/response transcripts.", None),
        def(
            "threads.named",
            "Named mobile threads with connector, cwd, and feature preferences.",
            None,
        ),
        def("threads.cwd", "Per-thread working directory routing.", Some("threads.cwd")),
        def(
            "threads.watch",
            "Live progress/status updates for a thread.",
            Some("connector.stream"),
        ),
        def(
            "attachments.images",
            "Download mobile images and pass private file paths to connectors.",
            Some("attachments.images"),
        ),
        def("attachments.files", "Send local files back to the mobile gateway.", None),
        def(
            "mac.screenshot",
            "Capture the current Mac display when the gateway has permission.",
            None,
        ),
        def("mac.terminal", "Parent-owned persistent PTY sessions.", None),
        def(
            "connector.health",
            "Connector health checks before config promotion.",
            Some("connector.health"),
        ),
        def(
            "connector.run",
            "Run a user request through the selected connector.",
            Some("connector.run"),
        ),
        def(
            "connector.status",
            "Ask a connector for runtime status when supported.",
            Some("connector.status"),
        ),
        def(
            "connector.capabilities",
            "Ask a connector to report its supported feature set.",
            Some("connector.capabilities"),
        ),
    ];
    assert(r@.map_values(|d: FeatureDefinition| definition_view(d)) =~= registry_spec());
    assert(r@.map_values(|d: FeatureDefinition| d.description@) =~= registry_descriptions());
    r
}

/// The listing line of a feature: key, description, and the capability it needs.
pub open spec fn feature_line_text(d: FeatureDefinition) -> Seq<char> {
    d.key@ + " - "@ + d.description@ + match d.connector_capability {
        Some(c) => " connector_capability="@ + c@,
        None => Seq::empty(),
    }
}

/// Describes a feature on one line.
pub fn feature_line(d: &FeatureDefinition) -> (r: String)
    ensures
        r@ == feature_line_text(*d),
{
    let mut r = cat(d.key, " - ");
    r.append(d.description);
    match d.connector_capability {
        Some(c) => {
            r.append(" connector_capability=");
            r.append(c);
        },
        None => {
            proof {
                assert(r@ + Seq::<char>::empty() =~= r@);
            }
        },
    }
    r
}

} // verus!
