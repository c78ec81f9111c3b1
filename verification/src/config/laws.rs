//! What a config means where it says nothing, and what is refused of it.

use crate::config::auto_restart::{
    AutoRestartSettings, ErrorRateTrigger, ErrorStatusClass, GenerationStallTrigger,
    SpecCollapseTrigger,
};
use crate::config::container;
use crate::config::container::{
    ContainerFault, RawContainerConfig, RawContainerMount, RawPortPublication,
};
use crate::config::docs;
use crate::config::effective;
use crate::config::effective::{ServiceConfig, TemplateConfig};
use crate::config::error;
use crate::config::error::ExpectedError;
use crate::config::flags;
use crate::config::load;
use crate::config::merge::migrations;
use crate::config::merge::migrations::Migration;
use crate::config::merge::resolve;
use crate::config::raw::RawService;
use crate::config::service;
use crate::config::value;
use crate::config::value::{Float64, JsonValue, TomlValue};
use crate::text;
use vstd::prelude::*;
use vstd::string::*;

verus! {

/// The defaults, in milliseconds, counts and bytes.
pub proof fn lemma_default_figures()
    ensures
        docs::DEFAULT_IDLE_TIMEOUT_MS == 10 * 60 * 1000,
        docs::DEFAULT_OPENAI_MAX_BODY_MB == 64,
        docs::DEFAULT_OPENAI_MAX_BODY_BYTES == docs::DEFAULT_OPENAI_MAX_BODY_MB * 1024 * 1024,
        docs::DEFAULT_HEALTH_PROBE_INTERVAL_MS == 5 * 1000,
        docs::DEFAULT_HEALTH_TIMEOUT_MS == 3 * 60 * 1000,
        docs::DEFAULT_DRAIN_TIMEOUT_MS == 30 * 1000,
        docs::DEFAULT_EXTENDED_STREAM_DRAIN_MS == 30 * 1000,
        docs::DEFAULT_MAX_REQUEST_DURATION_MS == 10 * 60 * 1000,
        docs::DEFAULT_SERVICE_PRIORITY == 50,
        docs::DEFAULT_MIN_BORROWER_RUNTIME_MS == 60 * 1000,
        docs::DEFAULT_START_QUEUE_DEPTH == 10,
        docs::DEFAULT_PRIVATE_PORT_START == 40_000,
        docs::DEFAULT_PRIVATE_PORT_END == 59_999,
        docs::MANAGEMENT_LISTEN@ == "127.0.0.1:7071"@,
        docs::OPENAI_LISTEN@ == "127.0.0.1:7070"@,
{
}

/// The restart triggers as they are set up by default: half of at least
/// twenty requests in two minutes must fail with a server error; a stall is
/// five minutes; a collapse is two hundred drafted tokens in two minutes;
/// all are looked at every half minute. A run lives five minutes before it
/// may be restarted again, and three times in half an hour is enough.
pub proof fn lemma_default_triggers(
    settings: AutoRestartSettings,
    rate: ErrorRateTrigger,
    stall: GenerationStallTrigger,
    collapse: SpecCollapseTrigger,
)
    ensures
        rate.is_default() <==> rate.window_ms == 2 * 60 * 1000 && rate.max_error_rate.bits
            == 0x3fe0_0000_0000_0000 && rate.min_requests == 20 && rate.poll_interval_ms == 30
            * 1000 && rate.statuses is ServerOnly,
        stall.is_default() <==> stall.timeout_ms == 5 * 60 * 1000 && stall.poll_interval_ms == 30
            * 1000,
        collapse.is_default() <==> collapse.window_ms == 2 * 60 * 1000 && collapse.min_draft_tokens
            == 200 && collapse.poll_interval_ms == 30 * 1000,
        settings.default_limits() <==> settings.min_uptime_ms == 5 * 60 * 1000
            && settings.max_restarts == 3 && settings.flap_window_ms == 30 * 60 * 1000,
        docs::DEFAULT_AUTO_RESTART_TTFT_STALL_MS == 5 * 60 * 1000,
{
}

/// Restarting is on exactly where some trigger is.
pub proof fn lemma_restarting_enabled(s: AutoRestartSettings)
    ensures
        !s.enabled() <==> s.error_rate is None && s.periodic is None && s.ttft_stall is None
            && s.generation_stall is None && s.spec_collapse is None,
{
}

/// Server errors are the statuses from 500 to 599; with client errors, all
/// from 400 on.
pub proof fn lemma_failing_statuses(status: u16)
    ensures
        ErrorStatusClass::ServerOnly.counts(status) <==> status as int / 100 == 5,
        ErrorStatusClass::ClientAndServer.counts(status) <==> status as int / 100 >= 4,
        ErrorStatusClass::ServerOnly.least() == 500,
        ErrorStatusClass::ClientAndServer.least() == 400,
{
}

/// Which services with a container block are refused: a llama.cpp service
/// with a launcher, a command with a shutdown command, a block that breaks a
/// rule, and a command on a bridge that never binds what is published.
pub proof fn lemma_contained_service_refused(s: RawService, raw: RawContainerConfig)
    ensures
        s matches RawService::LlamaCpp(lc) ==> (service::service_fault(s, raw) is Some
            <==> lc.launcher is Some || container::container_fault(raw) is Some),
        s matches RawService::Command(cmd) ==> (cmd.shutdown_command is Some
            || container::container_fault(raw) is Some ==> service::service_fault(s, raw) is Some),
        s matches RawService::Command(cmd) ==> (cmd.shutdown_command is None
            && container::container_fault(raw) is None && raw.network is Some && raw.network->0@
            == "host"@ ==> service::service_fault(s, raw) is None),
        s matches RawService::LlamaCpp(lc) ==> service::block_of(s) == lc.container,
        s matches RawService::Command(cmd) ==> service::block_of(s) == cmd.container,
{
    reveal_strlit("bridge");
    reveal_strlit("host");
    assert("bridge"@.len() != "host"@.len());
}

/// What is read before a config is taken over: of every llama.cpp service
/// its model, and behind it its projector where it names one; of a command
/// nothing; in the order of the services.
pub proof fn lemma_files_read_first(services: Seq<ServiceConfig>, s: ServiceConfig)
    ensures
        effective::all_reads(Seq::<ServiceConfig>::empty()).len() == 0,
        match s.template_config {
            TemplateConfig::Command(_) => effective::all_reads(services.push(s))
                == effective::all_reads(services),
            TemplateConfig::LlamaCpp(lc) => match lc.mmproj {
                None => effective::all_reads(services.push(s)) == effective::all_reads(
                    services,
                ).push((s.name@, lc.model@, false)),
                Some(p) => effective::all_reads(services.push(s)) == effective::all_reads(
                    services,
                ).push((s.name@, lc.model@, false)).push((s.name@, p@, true)),
            },
        },
{
    assert(services.push(s).drop_last() =~= services);
    let before = effective::all_reads(services);
    let after = effective::all_reads(services.push(s));
    match s.template_config {
        TemplateConfig::Command(_) => {
            assert(after =~= before);
        },
        TemplateConfig::LlamaCpp(lc) => {
            match lc.mmproj {
                None => {
                    assert(after =~= before.push((s.name@, lc.model@, false)));
                },
                Some(p) => {
                    assert(after =~= before.push((s.name@, lc.model@, false)).push(
                        (s.name@, p@, true),
                    ));
                },
            }
        },
    }
}

/// A double is a number unless all eleven bits of its exponent are set.
pub proof fn lemma_finite_by_exponent(x: Float64)
    ensures
        x.finite() <==> x.bits & 0x7ff0_0000_0000_0000u64 != 0x7ff0_0000_0000_0000u64,
{
    let bits = x.bits;
    assert((bits & 0x7ff0_0000_0000_0000u64 != 0x7ff0_0000_0000_0000u64) == ((bits
        / 0x10_0000_0000_0000u64) % 0x800u64 != 0x7ffu64)) by (bit_vector);
}

/// The JSON of a single value is the value: text and dates as text, numbers
/// as numbers, truth as truth. Only a double that is no number has none.
pub proof fn lemma_json_of_single_value(v: TomlValue, j: JsonValue)
    requires
        !(v is Array),
        !(v is Table),
    ensures
        v matches TomlValue::String(s) ==> value::has_json(v) && (value::is_json_of(v, j) <==> (
        j matches JsonValue::String(t) && s@ == t@)),
        v matches TomlValue::Datetime(s) ==> value::has_json(v) && (value::is_json_of(v, j) <==> (
        j matches JsonValue::String(t) && s@ == t@)),
        v matches TomlValue::Integer(n) ==> value::has_json(v) && (value::is_json_of(v, j)
            <==> j == JsonValue::Integer(n)),
        v matches TomlValue::Boolean(b) ==> value::has_json(v) && (value::is_json_of(v, j)
            <==> j == JsonValue::Bool(b)),
        v matches TomlValue::Float(x) ==> (value::has_json(v) <==> x.finite()) && (
        value::is_json_of(v, j) <==> x.finite() && j == JsonValue::Float(x)),
{
}

/// The JSON of a list is the list of its items' JSON, in order, and that of
/// a table the object of its entries' JSON, under the same keys.
pub proof fn lemma_json_of_nested_value(v: TomlValue, j: JsonValue)
    ensures
        v matches TomlValue::Array(items) ==> (value::has_json(v) <==> forall|i: int|
            0 <= i < items@.len() ==> value::has_json(#[trigger] items@[i])),
        v matches TomlValue::Array(items) ==> (value::is_json_of(v, j) <==> (j matches
            JsonValue::Array(out) && out@.len() == items@.len() && forall|i: int|
            0 <= i < items@.len() ==> value::is_json_of(#[trigger] items@[i], out@[i]))),
        v matches TomlValue::Table(entries) ==> (value::has_json(v) <==> forall|i: int|
            0 <= i < entries@.len() ==> value::has_json((#[trigger] entries@[i]).1)),
        v matches TomlValue::Table(entries) ==> (value::is_json_of(v, j) <==> (j matches
            JsonValue::Object(out) && out@.len() == entries@.len() && forall|i: int|
            0 <= i < entries@.len() ==> (#[trigger] entries@[i]).0@ == out@[i].0@
                && value::is_json_of(entries@[i].1, out@[i].1))),
{
}

/// Two values are the same where they are of one type and hold the same.
pub proof fn lemma_same_value(a: TomlValue, b: TomlValue)
    requires
        value::same_toml(a, b),
    ensures
        a matches TomlValue::String(x) ==> (b matches TomlValue::String(y) && x@ == y@),
        a matches TomlValue::Datetime(x) ==> (b matches TomlValue::Datetime(y) && x@ == y@),
        a matches TomlValue::Integer(x) ==> b == TomlValue::Integer(x),
        a matches TomlValue::Float(x) ==> b == TomlValue::Float(x),
        a matches TomlValue::Boolean(x) ==> b == TomlValue::Boolean(x),
        a matches TomlValue::Array(x) ==> (b matches TomlValue::Array(y) && x@.len() == y@.len()
            && forall|i: int| 0 <= i < x@.len() ==> value::same_toml(#[trigger] x@[i], y@[i])),
        a matches TomlValue::Table(x) ==> (b matches TomlValue::Table(y) && x@.len() == y@.len()
            && forall|i: int|
            0 <= i < x@.len() ==> (#[trigger] x@[i]).0@ == y@[i].0@ && value::same_toml(
                x@[i].1,
                y@[i].1,
            )),
{
}

/// An error names the file it is about before the reason, so its text starts
/// with the path or tells of a file that is missing.
pub proof fn lemma_error_told(e: ExpectedError)
    ensures
        e matches ExpectedError::ConfigFileMissing { path } ==> e.text_view()
            == "config file not found: "@ + path@,
        e matches ExpectedError::ConfigUnparseable { path, message } ==> e.text_view() == path@
            + ": "@ + message@,
        e matches ExpectedError::DatabaseOpenFailed { path, message } ==> e.text_view() == path@
            + ": database could not be opened: "@ + message@,
        forall|message: Seq<char>| #[trigger]
            error::rejects(e, message) <==> (e matches ExpectedError::ConfigUnparseable {
                path: p,
                message: m,
            } && p@ == "<config>"@ && m@ == message),
        forall|path: Seq<char>, message: Seq<char>| #[trigger]
            error::unparseable(e, path, message) <==> (e matches ExpectedError::ConfigUnparseable {
                path: p,
                message: m,
            } && p@ == path && m@ == message),
        effective::PREFLIGHT_ORIGIN@ == "<preflight>"@,
{
}

/// A list has every word between its marks, and a comma and a space before
/// every word but the first.
pub proof fn lemma_words_listed(
    words: Seq<&str>,
    word: &str,
    open: Seq<char>,
    close: Seq<char>,
)
    ensures
        flags::list_of(Seq::<&str>::empty(), open, close).len() == 0,
        words.len() == 0 ==> flags::list_of(words.push(word), open, close) == open + word@ + close,
        words.len() > 0 ==> flags::list_of(words.push(word), open, close) == flags::list_of(
            words,
            open,
            close,
        ) + ", "@ + open + word@ + close,
{
    assert(words.push(word).drop_last() =~= words);
    let r = flags::list_of(words.push(word), open, close);
    if words.len() > 0 {
        assert(r =~= flags::list_of(words, open, close) + ", "@ + open + word@ + close);
    }
}

/// Services resolve exactly where their inheritance does and then their
/// renames do; what is refused at one step is refused as a whole, and the
/// second step sees what the first one left.
pub proof fn lemma_resolved_in_two_steps(
    services: Seq<RawService>,
    inherited: Seq<RawService>,
    r: Result<Vec<Migration>, ExpectedError>,
    out: Seq<RawService>,
)
    requires
        load::stands_between(services, inherited, r, out),
    ensures
        r is Ok ==> resolve::inheritance(services, Ok(()), inherited) && migrations::migration(
            inherited,
            r,
            out,
        ),
        r matches Err(e) ==> (resolve::inheritance(services, Ok(()), inherited)
            && migrations::migration(inherited, r, out)) || (resolve::inheritance(
            services,
            Err(e),
            inherited,
        ) && out == inherited),
{
}

/// A duration is shown in hours where they are whole, else in minutes where
/// those are, else in seconds where they are whole and less than a minute's,
/// else in milliseconds; no time at all is no seconds.
pub proof fn lemma_duration_unit(n: nat)
    ensures
        docs::duration_text(0) == text::digits(0) + "s"@,
        n > 0 ==> docs::duration_text(n * 3_600_000) == text::digits(n) + "h"@,
        n > 0 && n % 60 != 0 ==> docs::duration_text(n * 60_000) == text::digits(n) + "m"@,
        0 < n < 60 ==> docs::duration_text(n * 1_000) == text::digits(n) + "s"@,
        n % 1_000 != 0 ==> docs::duration_text(n) == text::digits(n) + "ms"@,
        n > 60_000 && n % 60_000 != 0 ==> docs::duration_text(n) == text::digits(n) + "ms"@,
{
    assert(n * 3_600_000 / 3_600_000 == n);
    assert(n * 60_000 / 60_000 == n);
    assert(n * 1_000 / 1_000 == n);
}

/// How a default is shown: as it is written, or as code, with a note where
/// the shared defaults may replace it.
pub proof fn lemma_default_shown(t: &'static str, n: u64)
    ensures
        docs::code(t@) == "`"@ + t@ + "`"@,
        docs::default_text((docs::Shown::Plain, t, n)) == t@,
        docs::default_text((docs::Shown::Quoted, t, n)) == docs::code(t@),
        docs::default_text((docs::Shown::Number, t, n)) == docs::code(text::digits(n as nat)),
        docs::default_text((docs::Shown::Duration, t, n)) == docs::code(
            docs::duration_text(n as nat),
        ),
        docs::default_text((docs::Shown::SharedNumber, t, n)) == docs::default_text(
            (docs::Shown::Number, t, n),
        ) + " (or `[defaults]` value)"@,
        docs::default_text((docs::Shown::SharedDuration, t, n)) == docs::default_text(
            (docs::Shown::Duration, t, n),
        ) + " (or `[defaults]` value)"@,
{
}

/// A row of a reference table shows its own name, type and default, and a
/// description that ends with a full stop and lists its words as code
/// between its two parts.
pub proof fn lemma_row_shown(f: docs::FieldDoc, row: docs::Row)
    requires
        docs::shows_field(f, row),
    ensures
        f.name@ == row.0@,
        f.ty@ == row.1@,
        f.default@ == docs::default_text(row.2),
        f.description@ == row.3.0@ + flags::list_of(row.3.1.list(), "`\""@, "\"`"@) + row.3.2@
            + "."@,
{
}

/// The words a description can list are those that the config accepts.
pub proof fn lemma_words_accepted(w: docs::Words)
    ensures
        w is Nothing ==> w.list().len() == 0,
        w is SplitModes ==> w.list() == flags::split_mode::ALL@,
        w is NumaStrategies ==> w.list() == flags::numa::ALL@,
        w is Runtimes ==> w.list() == docs::RUNTIMES@,
        w is Networks ==> w.list() == docs::NETWORKS@,
        w is IpcModes ==> w.list() == docs::IPC_MODES@,
        w is Relabels ==> w.list() == docs::RELABELS@,
        w is Protocols ==> w.list() == docs::PROTOCOLS@,
{
}

/// What the operator reads of a service that a container leaves no room for:
/// which service, and which setting.
pub proof fn lemma_exclusion_told(s: RawService, raw: RawContainerConfig)
    ensures
        s matches RawService::LlamaCpp(lc) ==> (lc.launcher is Some ==> service::service_fault(
            s,
            raw,
        ) == Some(
            "service "@ + service::shown_name(s)
                + ": launcher and [service.container] are mutually exclusive"@,
        )),
        s matches RawService::Command(cmd) ==> (cmd.shutdown_command is Some
            ==> service::service_fault(s, raw) == Some(
            "service "@ + service::shown_name(s)
                + ": shutdown_command is not allowed with [service.container]"@,
        )),
        s.shared().name matches Some(n) ==> service::shown_name(s) == n@,
        s.shared().name is None ==> service::shown_name(s).len() == 0,
        service::exclusion(s) is None ==> (container::container_fault(raw) matches Some(f)
            ==> service::service_fault(s, raw) == Some(
            container::fault_text(service::shown_name(s), raw, f),
        )),
        s matches RawService::LlamaCpp(lc) ==> (service::exclusion(s) is None <==> lc.launcher is None),
        s matches RawService::Command(cmd) ==> (service::exclusion(s) is None
            <==> cmd.shutdown_command is None),
{
}

/// What the operator reads of a container that is refused names the service,
/// the setting and, where one was written, the value that is at fault.
pub proof fn lemma_setting_fault_told(name: Seq<char>, raw: RawContainerConfig)
    ensures
        ({
            let lead = "service "@ + name;
            let told = |f: ContainerFault| container::fault_text(name, raw, f);
            &&& told(ContainerFault::ImageMissing) == lead
                + ": container.image is required when [service.container] is present"@
            &&& told(ContainerFault::ImageEmpty) == lead + ": container.image must not be empty"@
            &&& raw.runtime matches Some(v) ==> told(ContainerFault::RuntimeUnknown) == lead
                + ": container.runtime `"@ + v@ + "` is invalid (expected `docker` or `podman`)"@
            &&& raw.network matches Some(v) ==> told(ContainerFault::NetworkUnknown) == lead
                + ": container.network `"@ + v@ + "` is invalid (expected `bridge` or `host`)"@
            &&& raw.ipc matches Some(v) ==> told(ContainerFault::IpcUnknown) == lead
                + ": container.ipc `"@ + v@ + "` is invalid (expected `private` or `host`)"@
            &&& told(ContainerFault::PortMissing) == lead
                + ": container.container_port is required for bridge networking"@
            &&& told(ContainerFault::PortOnHost) == lead
                + ": container.container_port is not allowed with host networking"@
            &&& told(ContainerFault::PublicationsOnHost) == lead
                + ": container.extra_publications is not allowed with host networking"@
            &&& raw.gpu_device matches Some(v) ==> told(ContainerFault::DevicePlaceholderMissing)
                == lead + ": container.gpu_device must contain `${id}` placeholder (got `"@ + v@
                + "`)"@
        }),
{
}

/// What the operator reads of an entry that is refused says which entry it
/// is, counted from zero, and what is written there.
pub proof fn lemma_entry_fault_told(
    name: Seq<char>,
    raw: RawContainerConfig,
    mount: RawContainerMount,
    publication: RawPortPublication,
    i: usize,
    first: usize,
)
    ensures
        ({
            let lead = "service "@ + name;
            let at = text::digits(i as nat);
            let told = |f: ContainerFault| container::fault_text(name, raw, f);
            &&& raw.mounts matches Some(list) ==> (i < list@.len() && list@[i as int] == mount ==> {
                &&& told(ContainerFault::MountSourceRelative(i)) == lead + ": container.mounts["@
                    + at + "].source must be an absolute path (got `"@ + mount.source@ + "`)"@
                &&& told(ContainerFault::MountTargetRelative(i)) == lead + ": container.mounts["@
                    + at + "].target must be an absolute path (got `"@ + mount.target@ + "`)"@
                &&& mount.selinux is Some ==> told(ContainerFault::MountSelinuxUnknown(i)) == lead
                    + ": container.mounts["@ + at + "].selinux `"@ + mount.selinux->0@
                    + "` is invalid (expected `z` or `Z`)"@
                &&& told(ContainerFault::MountTargetRepeated { first, again: i }) == lead
                    + ": container.mounts has duplicate target `"@ + mount.target@
                    + "` (first at index "@ + text::digits(first as nat) + ", duplicate at "@ + at
                    + ")"@
            })
            &&& raw.extra_publications matches Some(list) ==> (i < list@.len() && list@[i as int]
                == publication ==> {
                &&& told(ContainerFault::PublicationProtocolUnknown(i)) == lead
                    + ": container.extra_publications["@ + at + "].protocol `"@
                    + publication.protocol@ + "` is invalid (expected `tcp` or `udp`)"@
                &&& (lead + ": container.extra_publications["@ + at
                    + "].host_ip is empty"@).is_prefix_of(
                    told(ContainerFault::PublicationAddressBlank(i)))
            })
            &&& told(ContainerFault::PassthroughBlank(i)) == lead + ": container.env_passthrough["@
                + at + "] is empty"@
        }),
{
    let lead = "service "@ + name;
    let at = text::digits(i as nat);
    let said = lead + ": container.extra_publications["@ + at + "].host_ip is empty"@;
    let all = container::fault_text(name, raw, ContainerFault::PublicationAddressBlank(i));
    reveal_strlit("].host_ip is empty");
    reveal_strlit(
        "].host_ip is empty, which publishes on every interface — state `127.0.0.1` explicitly, or the address you mean",
    );
    assert(said =~= all.take(said.len() as int));
}

} // verus!
