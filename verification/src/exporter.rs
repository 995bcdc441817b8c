//! The decisions around the delivery of the metrics: whether to send at all,
//! what to send and where, and what the answer of the backend means.

use vstd::prelude::*;
use crate::metrics::{metrics, readout_of, MetricsSlot};
use crate::user_agent::{agent_text, build_user_agent, lowercased};

verus! {

/// The settings of the delivery. Delivery happens only where it is switched
/// on and the address and both credentials are given.
#[derive(Debug)]
pub struct MetricsConfig {
    pub grafana_push_url: Option<String>,
    pub grafana_user: Option<String>,
    pub grafana_token: Option<String>,
    pub metrics_enabled: Option<bool>,
}

impl Default for MetricsConfig {
    fn default() -> (c: MetricsConfig)
        ensures
            c.grafana_push_url is None,
            c.grafana_user is None,
            c.grafana_token is None,
            c.metrics_enabled is None,
    {
        MetricsConfig {
            grafana_push_url: None,
            grafana_user: None,
            grafana_token: None,
            metrics_enabled: None,
        }
    }
}

/// Where the metrics go and under which credentials.
pub struct TargetView {
    pub url: Seq<char>,
    pub user: Seq<char>,
    pub token: Seq<char>,
}

/// The target that the settings name, if delivery is active: the settings
/// are present, delivery is switched on, and address, user and token are all
/// given.
pub open spec fn active_target(config: Option<MetricsConfig>) -> Option<TargetView> {
    match config {
        Some(c) => match (c.metrics_enabled, c.grafana_push_url, c.grafana_user, c.grafana_token) {
            (Some(true), Some(url), Some(user), Some(token)) => Some(
                TargetView { url: url@, user: user@, token: token@ },
            ),
            _ => None,
        },
        None => None,
    }
}

/// One delivery: the address, the credentials of the basic authentication,
/// the client identifier and the readout to send.
#[derive(Debug)]
pub struct ExportRequest {
    pub url: String,
    pub user: String,
    pub token: String,
    pub user_agent: String,
    /// The readout of the instruments as the metrics library gave it.
    pub families: Vec<prometheus::proto::MetricFamily>,
}

/// What a delivery holds besides the readout, of which `readout_of`
/// speaks.
pub struct RequestView {
    pub url: Seq<char>,
    pub user: Seq<char>,
    pub token: Seq<char>,
    pub user_agent: Seq<char>,
}

impl View for ExportRequest {
    type V = RequestView;

    open spec fn view(&self) -> RequestView {
        RequestView {
            url: self.url@,
            user: self.user@,
            token: self.token@,
            user_agent: self.user_agent@,
        }
    }
}

/// The name under which the client identifies itself.
pub open spec fn client_name() -> Seq<char> {
    "estrange"@
}

/// The version under which the client identifies itself.
pub open spec fn client_version() -> Seq<char> {
    "0.1.1"@
}

/// The delivery that is due, if one is: the target is active and the
/// metrics are set up.
pub open spec fn planned_export(
    config: Option<MetricsConfig>,
    set_up: bool,
    os: Seq<char>,
    arch: Seq<char>,
) -> Option<RequestView> {
    match (active_target(config), set_up) {
        (Some(target), true) => Some(
            RequestView {
                url: target.url,
                user: target.user,
                token: target.token,
                user_agent: agent_text(
                    lowercased(client_name()),
                    client_name(),
                    client_version(),
                    os,
                    arch,
                ),
            },
        ),
        _ => None,
    }
}

/// Decides whether the metrics are delivered now and, if so, prepares the
/// delivery. `None` means there is nothing to do, which is a success:
/// delivery is off, incompletely configured, or the metrics were never set
/// up. The delivery carries the readout of the metrics as they stand.
pub fn prepare_export(config: &Option<MetricsConfig>, slot: &MetricsSlot, os: &str, arch: &str) -> (r:
    Option<ExportRequest>)
    requires
        slot.wf(),
    ensures
        match r {
            Some(req) => {
                &&& Some(req@) == planned_export(*config, slot.state() is Some, os@, arch@)
                &&& slot.state() matches Some(m) && readout_of(m, req.families@)
            },
            None => planned_export(*config, slot.state() is Some, os@, arch@) is None,
        },
{
    let c = match config {
        Some(c) => c,
        None => {
            return None;
        },
    };
    match c.metrics_enabled {
        Some(true) => {},
        _ => {
            return None;
        },
    }
    let url = match &c.grafana_push_url {
        Some(s) => s.clone(),
        None => {
            return None;
        },
    };
    let user = match &c.grafana_user {
        Some(s) => s.clone(),
        None => {
            return None;
        },
    };
    let token = match &c.grafana_token {
        Some(s) => s.clone(),
        None => {
            return None;
        },
    };
    let families = match metrics(slot) {
        Some(m) => m.export_metrics(),
        None => {
            return None;
        },
    };
    let user_agent = build_user_agent("estrange", "0.1.1", os, arch);
    Some(ExportRequest { url, user, token, user_agent, families })
}

/// A failed delivery: the status of the answer, where there was one, and
/// what the backend or the transport said.
#[derive(Debug)]
pub struct ExportError {
    pub status: Option<u16>,
    pub body: String,
}

/// A status from 200 to 299.
pub open spec fn is_success(status: u16) -> bool {
    200 <= status < 300
}

/// What the answer to a delivery means. `status` is `None` where no answer
/// came at all. Every answer but one with a status from 200 to 299 is a
/// failure that carries the status and the text.
pub fn delivery_outcome(status: Option<u16>, body: String) -> (r: Result<(), ExportError>)
    ensures
        r is Ok <==> (status matches Some(s) && is_success(s)),
        r matches Err(e) ==> e.status == status && e.body == body,
{
    match status {
        Some(s) => {
            if 200 <= s && s < 300 {
                return Ok(());
            }
        },
        None => {},
    }
    Err(ExportError { status, body })
}

} // verus!
