//! What requests to the API are answered.

use vstd::prelude::*;
use vstd::string::*;

use crate::agent::{agent_error_text, copy_env, env_map, AgentError};
use crate::app_manager::{app_error_text, AppError};
use crate::install::{
    default_health_path, default_shutdown_timeout, default_startup_timeout, install_error_text,
    InstallError, PackageManifest, PackageView,
};
use crate::registry::{ComponentProfile, InfoView, Registry};
use crate::store::{store_error_text, AppManifest, AppView, StoreError};
use crate::text::{copy_opt, opt_str, opt_text, same};

verus! {

/// What an answer stands for.
#[derive(Debug, Clone, Copy, PartialEq, Eq, Structural)]
pub enum ReplyCode {
    Success,
    /// Something outside the API has failed.
    External,
    AppNotFound,
    AppNotInstalled,
    AppStartFailed,
    AppStopFailed,
    ComponentNotRegistered,
    StoreAppNotFound,
    StoreSourceUnreachable,
}

/// An answer, but for the data in it. Without a message the one of the code is shown.
#[derive(Debug)]
pub struct ApiReply {
    pub code: ReplyCode,
    pub message: Option<String>,
}

/// The contents of an answer.
#[verifier::ext_equal]
pub struct ReplyView {
    pub code: ReplyCode,
    pub message: Option<Seq<char>>,
}

impl View for ApiReply {
    type V = ReplyView;

    open spec fn view(&self) -> ReplyView {
        ReplyView { code: self.code, message: opt_text(self.message) }
    }
}

/// An answer with a message.
pub open spec fn saying(code: ReplyCode, message: Seq<char>) -> ReplyView {
    ReplyView { code, message: Some(message) }
}

fn reply(code: ReplyCode, message: &str) -> (r: ApiReply)
    ensures
        r@ == saying(code, message@),
{
    ApiReply { code, message: Some(message.to_owned()) }
}

/// An answer without a message.
fn bare(code: ReplyCode) -> (r: ApiReply)
    ensures
        r@ == (ReplyView { code, message: None }),
{
    ApiReply { code, message: None }
}

/// The answer to a request for something of which it is known whether it exists.
pub open spec fn lookup(found: bool, missing: ReplyView) -> ReplyView {
    if found {
        ReplyView { code: ReplyCode::Success, message: None }
    } else {
        missing
    }
}

// ---- agents ----

/// The answer to a request on an agent.
pub open spec fn agent_outcome(outcome: Result<(), AgentError>, done: Seq<char>) -> ReplyView {
    match outcome {
        Ok(()) => saying(ReplyCode::Success, done),
        Err(e) => saying(ReplyCode::External, agent_error_text(e@)),
    }
}

fn agent_reply(outcome: Result<(), AgentError>, done: &str) -> (r: ApiReply)
    ensures
        r@ == agent_outcome(outcome, done@),
{
    match outcome {
        Ok(()) => reply(ReplyCode::Success, done),
        Err(e) => reply(ReplyCode::External, e.message().as_str()),
    }
}

/// Answers a request for an agent.
pub fn get_agent(found: bool) -> (r: ApiReply)
    ensures
        r@ == lookup(found, (ReplyView { code: ReplyCode::AppNotFound, message: None })),
{
    if found {
        bare(ReplyCode::Success)
    } else {
        bare(ReplyCode::AppNotFound)
    }
}

/// Answers a request to start an agent.
pub fn start_agent(outcome: Result<(), AgentError>) -> (r: ApiReply)
    ensures
        r@ == agent_outcome(outcome, "启动成功"@),
{
    agent_reply(outcome, "启动成功")
}

/// Answers a request to stop an agent.
pub fn stop_agent(outcome: Result<(), AgentError>) -> (r: ApiReply)
    ensures
        r@ == agent_outcome(outcome, "停止成功"@),
{
    agent_reply(outcome, "停止成功")
}

/// Answers a request to restart an agent.
pub fn restart_agent(outcome: Result<(), AgentError>) -> (r: ApiReply)
    ensures
        r@ == agent_outcome(outcome, "重启成功"@),
{
    agent_reply(outcome, "重启成功")
}

// ---- components ----

/// The id in a request to unregister a component; an empty one where none is given.
pub fn unregister_id(id: Option<&str>) -> (r: &str)
    ensures
        r@ == match id {
            Some(s) => s@,
            None => ""@,
        },
{
    match id {
        Some(s) => s,
        None => "",
    }
}

/// Answers a request for a component, or for where it is.
pub fn component_detail(found: bool) -> (r: ApiReply)
    ensures
        r@ == lookup(found, saying(ReplyCode::ComponentNotRegistered, "组件不存在"@)),
{
    if found {
        bare(ReplyCode::Success)
    } else {
        reply(ReplyCode::ComponentNotRegistered, "组件不存在")
    }
}

/// Where a component is.
pub struct ComponentDiscoverResponse<'a> {
    pub id: &'a str,
    pub name: &'a str,
    pub version: &'a str,
    pub component_type: &'a str,
    pub address: &'a str,
    pub port: u16,
    pub profile: &'a ComponentProfile,
    pub status: crate::registry::ComponentStatus,
    pub base_url: &'a str,
    pub serve_url: Option<&'a str>,
}

/// Whether this tells where that component is.
pub open spec fn tells(d: ComponentDiscoverResponse, c: InfoView) -> bool {
    &&& d.id@ == c.id
    &&& d.name@ == c.name
    &&& d.version@ == c.version
    &&& d.component_type@ == c.component_type
    &&& d.address@ == c.address
    &&& d.port == c.port
    &&& *d.profile == c.profile
    &&& d.status@ == c.status
    &&& d.base_url@ == c.base_url
    &&& opt_str(d.serve_url) == c.serve_url
}

/// Tells where a component is, if it is registered.
pub fn discover<'a>(registry: &'a Registry, id: &str) -> (r: Option<ComponentDiscoverResponse<'a>>)
    requires
        registry.wf(),
    ensures
        match r {
            Some(d) => registry@.contains_key(id@) && tells(d, registry@[id@].info),
            None => !registry@.contains_key(id@),
        },
{
    match registry.get(id) {
        Some(c) => Some(
            ComponentDiscoverResponse {
                id: c.id.as_str(),
                name: c.name.as_str(),
                version: c.version.as_str(),
                component_type: c.component_type.as_str(),
                address: c.address.as_str(),
                port: c.port,
                profile: &c.profile,
                status: c.status.copy(),
                base_url: c.base_url.as_str(),
                serve_url: match &c.serve_url {
                    Some(u) => Some(u.as_str()),
                    None => None,
                },
            },
        ),
        None => None,
    }
}

// ---- applications of the store ----

/// The answer to a request on an application of the store.
pub open spec fn app_outcome(
    outcome: Option<Result<(), AppError>>,
    missing: ReplyView,
    done: Seq<char>,
) -> ReplyView {
    match outcome {
        None => missing,
        Some(Ok(())) => saying(ReplyCode::Success, done),
        Some(Err(e)) => saying(ReplyCode::AppStartFailed, app_error_text(e@)),
    }
}

/// Answers a request to install an application of the store; `None` where the store has none.
pub fn install_app(outcome: Option<Result<(), AppError>>) -> (r: ApiReply)
    ensures
        r@ == app_outcome(
            outcome,
            saying(ReplyCode::StoreAppNotFound, "商店中找不到该应用"@),
            "应用安装成功"@,
        ),
{
    match outcome {
        None => reply(ReplyCode::StoreAppNotFound, "商店中找不到该应用"),
        Some(Ok(())) => reply(ReplyCode::Success, "应用安装成功"),
        Some(Err(e)) => reply(ReplyCode::AppStartFailed, e.message().as_str()),
    }
}

/// Answers a request to start an application of the store; `None` where the store has none.
pub fn start_app(outcome: Option<Result<(), AppError>>) -> (r: ApiReply)
    ensures
        r@ == app_outcome(
            outcome,
            saying(ReplyCode::AppNotInstalled, "应用未安装"@),
            "应用启动成功"@,
        ),
{
    match outcome {
        None => reply(ReplyCode::AppNotInstalled, "应用未安装"),
        Some(Ok(())) => reply(ReplyCode::Success, "应用启动成功"),
        Some(Err(e)) => reply(ReplyCode::AppStartFailed, e.message().as_str()),
    }
}

/// Answers a request to stop an application of the store.
pub fn stop_app(outcome: Result<(), AppError>) -> (r: ApiReply)
    ensures
        r@ == match outcome {
            Ok(()) => saying(ReplyCode::Success, "应用已停止"@),
            Err(e) => saying(ReplyCode::AppStopFailed, app_error_text(e@)),
        },
{
    match outcome {
        Ok(()) => reply(ReplyCode::Success, "应用已停止"),
        Err(e) => reply(ReplyCode::AppStopFailed, e.message().as_str()),
    }
}

// ---- the store and installed applications ----

/// Answers a request to refresh a source of the store.
pub fn refresh_source(outcome: Result<(), StoreError>) -> (r: ApiReply)
    ensures
        r@ == match outcome {
            Ok(()) => saying(ReplyCode::Success, "刷新成功"@),
            Err(e) => saying(ReplyCode::StoreSourceUnreachable, store_error_text(e@)),
        },
{
    match outcome {
        Ok(()) => reply(ReplyCode::Success, "刷新成功"),
        Err(e) => reply(ReplyCode::StoreSourceUnreachable, e.message().as_str()),
    }
}

/// Answers a request for an application of the store, or for one that is installed.
pub fn app_detail(found: bool) -> (r: ApiReply)
    ensures
        r@ == lookup(found, (ReplyView { code: ReplyCode::AppNotFound, message: None })),
{
    if found {
        bare(ReplyCode::Success)
    } else {
        bare(ReplyCode::AppNotFound)
    }
}

/// The package of an application of the store: its program as the command, and defaults for
/// what the store does not say.
pub open spec fn package_of(app: AppView) -> PackageView {
    PackageView {
        id: app.id,
        name: app.name,
        version: app.version,
        entrypoint: "./"@ + app.binary_name,
        port: app.port,
        health_check_path: match app.health_url {
            Some(url) => url,
            None => "/health/ready"@,
        },
        startup_timeout: 30,
        shutdown_timeout: 10,
        env: env_map(app.env),
        memory_limit: 0,
        cpu_limit_bits: 0,
        download_url: app.download_url,
        sha256: app.sha256,
    }
}

/// The package of an application of the store.
pub fn package_from_manifest(manifest: &AppManifest) -> (r: PackageManifest)
    ensures
        r@ == package_of(manifest@),
{
    PackageManifest {
        id: manifest.id.clone(),
        name: manifest.name.clone(),
        version: manifest.version.clone(),
        entrypoint: "./".to_owned().concat(manifest.binary_name.as_str()),
        port: manifest.port,
        health_check_path: match &manifest.health_url {
            Some(url) => url.clone(),
            None => default_health_path(),
        },
        startup_timeout: default_startup_timeout(),
        shutdown_timeout: default_shutdown_timeout(),
        env: copy_env(&manifest.env),
        memory_limit: 0,
        cpu_limit_bits: 0,
        download_url: manifest.download_url.clone(),
        sha256: copy_opt(&manifest.sha256),
    }
}

/// The answer to a request on an installed application; `None` where the store has none.
pub open spec fn install_outcome(
    outcome: Option<Result<(), InstallError>>,
    done: Seq<char>,
) -> ReplyView {
    match outcome {
        None => ReplyView { code: ReplyCode::AppNotFound, message: None },
        Some(Ok(())) => saying(ReplyCode::Success, done),
        Some(Err(e)) => saying(ReplyCode::External, install_error_text(e@)),
    }
}

fn install_reply(outcome: Option<Result<(), InstallError>>, done: &str) -> (r: ApiReply)
    ensures
        r@ == install_outcome(outcome, done@),
{
    match outcome {
        None => bare(ReplyCode::AppNotFound),
        Some(Ok(())) => reply(ReplyCode::Success, done),
        Some(Err(e)) => reply(ReplyCode::External, e.message().as_str()),
    }
}

/// Answers a request to install a package of the store; `None` where the store has none.
pub fn install_package(outcome: Option<Result<(), InstallError>>) -> (r: ApiReply)
    ensures
        r@ == install_outcome(outcome, "安装成功"@),
{
    install_reply(outcome, "安装成功")
}

/// Answers a request to upgrade an application; `None` where the store has none.
pub fn upgrade_app(outcome: Option<Result<(), InstallError>>) -> (r: ApiReply)
    ensures
        r@ == install_outcome(outcome, "升级成功"@),
{
    install_reply(outcome, "升级成功")
}

/// Answers a request to start an installed application.
pub fn install_start(outcome: Result<(), InstallError>) -> (r: ApiReply)
    ensures
        r@ == install_outcome(Some(outcome), "启动成功"@),
{
    install_reply(Some(outcome), "启动成功")
}

/// Answers a request to stop an installed application.
pub fn install_stop(outcome: Result<(), InstallError>) -> (r: ApiReply)
    ensures
        r@ == install_outcome(Some(outcome), "停止成功"@),
{
    install_reply(Some(outcome), "停止成功")
}

/// Whether the data of an application is kept when it is removed.
pub open spec fn data_kept(parameter: Option<Seq<char>>) -> bool {
    match parameter {
        Some(v) => v == "true"@,
        None => true,
    }
}

/// Whether the data of an application is kept when it is removed: unless a parameter says
/// something other than `true`.
pub fn keep_data(parameter: Option<&str>) -> (r: bool)
    ensures
        r == match parameter {
            Some(v) => v@ == "true"@,
            None => true,
        },
        r == data_kept(opt_str(parameter)),
{
    match parameter {
        Some(v) => same(v, "true"),
        None => true,
    }
}

/// Answers a request to remove an installed application.
pub fn uninstall_app(outcome: Result<(), InstallError>) -> (r: ApiReply)
    ensures
        r@ == install_outcome(Some(outcome), "卸载成功"@),
{
    install_reply(Some(outcome), "卸载成功")
}

} // verus!
