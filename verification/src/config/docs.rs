//! Defaults, and the reference tables that document the config.

use crate::config::flags;
use crate::text;
use vstd::prelude::*;
use vstd::string::*;

pub mod auto_restart;
pub mod command;
pub mod container;
pub mod daemon;
pub mod llama_cpp;
pub mod service;

verus! {

/// Address the management API listens on.
pub const MANAGEMENT_LISTEN: &'static str = "127.0.0.1:7071";

/// Address the OpenAI-compatible API listens on.
pub const OPENAI_LISTEN: &'static str = "127.0.0.1:7070";

/// How long an on-demand service may be idle before it is drained.
pub const DEFAULT_IDLE_TIMEOUT_MS: u64 = 600_000;

/// Largest request body of the OpenAI API, in MiB.
pub const DEFAULT_OPENAI_MAX_BODY_MB: u64 = 64;

/// [`DEFAULT_OPENAI_MAX_BODY_MB`] in bytes.
pub const DEFAULT_OPENAI_MAX_BODY_BYTES: usize = 67_108_864;

/// Time between two health probes.
pub const DEFAULT_HEALTH_PROBE_INTERVAL_MS: u64 = 5_000;

/// Time a health probe may take.
pub const DEFAULT_HEALTH_TIMEOUT_MS: u64 = 180_000;

/// Time to drain before a service is killed.
pub const DEFAULT_DRAIN_TIMEOUT_MS: u64 = 30_000;

/// Extra time for streams that are in flight during a drain.
pub const DEFAULT_EXTENDED_STREAM_DRAIN_MS: u64 = 30_000;

/// Longest time a single proxied request may take.
pub const DEFAULT_MAX_REQUEST_DURATION_MS: u64 = 600_000;

/// Priority of a service in eviction contests; the higher wins.
pub const DEFAULT_SERVICE_PRIORITY: u8 = 50;

/// How long a borrower must have run before it may be killed fast.
pub const DEFAULT_MIN_BORROWER_RUNTIME_MS: u64 = 60_000;

/// Window over which the error rate is measured.
pub const DEFAULT_AUTO_RESTART_WINDOW_MS: u64 = 120_000;

/// Bits of the double 0.5: the share of requests in the window that must
/// fail before a service is restarted.
pub const DEFAULT_AUTO_RESTART_MAX_ERROR_RATE: u64 = 0x3fe0_0000_0000_0000;

/// How many requests the window must hold before the error rate is trusted.
pub const DEFAULT_AUTO_RESTART_MIN_REQUESTS: u32 = 20;

/// How often the error-rate watchdog looks at the metrics.
pub const DEFAULT_AUTO_RESTART_POLL_INTERVAL_MS: u64 = 30_000;

/// How long a fresh run must live before it may be restarted again.
pub const DEFAULT_AUTO_RESTART_MIN_UPTIME_MS: u64 = 300_000;

/// How many restarts within the flap window are tolerated.
pub const DEFAULT_AUTO_RESTART_MAX_RESTARTS: u32 = 3;

/// Window over which restarts are counted.
pub const DEFAULT_AUTO_RESTART_FLAP_WINDOW_MS: u64 = 1_800_000;

/// How long a request may wait for its first token.
pub const DEFAULT_AUTO_RESTART_TTFT_STALL_MS: u64 = 300_000;

/// How long the progress counters may stay flat under load.
pub const DEFAULT_AUTO_RESTART_GENERATION_STALL_MS: u64 = 300_000;

/// How often the progress counters are read.
pub const DEFAULT_AUTO_RESTART_GENERATION_STALL_POLL_MS: u64 = 30_000;

/// Window over which draft acceptance is measured.
pub const DEFAULT_AUTO_RESTART_SPEC_COLLAPSE_WINDOW_MS: u64 = 120_000;

/// How many drafted tokens the window must hold before none accepted counts.
pub const DEFAULT_AUTO_RESTART_SPEC_COLLAPSE_MIN_DRAFT_TOKENS: u64 = 200;

/// How often the draft-acceptance watchdog looks at the metrics.
pub const DEFAULT_AUTO_RESTART_SPEC_COLLAPSE_POLL_MS: u64 = 30_000;

/// How many start requests may wait for one service.
pub const DEFAULT_START_QUEUE_DEPTH: usize = 10;

/// First port handed to children for their private listener.
pub const DEFAULT_PRIVATE_PORT_START: u16 = 40_000;

/// Last port handed to children for their private listener.
pub const DEFAULT_PRIVATE_PORT_END: u16 = 59_999;

/// A number of units, the name of the unit and its milliseconds: the largest
/// unit that shows a duration exactly. Seconds show only durations below a
/// minute.
pub open spec fn units_of(ms: nat) -> (nat, Seq<char>, nat) {
    if ms == 0 {
        (0, "s"@, 1_000)
    } else if ms % 3_600_000 == 0 {
        (ms / 3_600_000, "h"@, 3_600_000)
    } else if ms % 60_000 == 0 {
        (ms / 60_000, "m"@, 60_000)
    } else if ms < 60_000 && ms % 1_000 == 0 {
        (ms / 1_000, "s"@, 1_000)
    } else {
        (ms, "ms"@, 1)
    }
}

/// A duration as the tables show it.
pub open spec fn duration_text(ms: nat) -> Seq<char> {
    text::digits(units_of(ms).0) + units_of(ms).1
}

/// A duration in the largest unit that shows it exactly.
pub fn fmt_duration_ms(ms: u64) -> (r: String)
    ensures
        r@ == duration_text(ms as nat),
{
    if ms == 0 {
        text::decimal(0).concat("s")
    } else if ms % 3_600_000 == 0 {
        text::decimal(ms / 3_600_000).concat("h")
    } else if ms % 60_000 == 0 {
        text::decimal(ms / 60_000).concat("m")
    } else if ms < 60_000 && ms % 1_000 == 0 {
        text::decimal(ms / 1_000).concat("s")
    } else {
        text::decimal(ms).concat("ms")
    }
}

/// A shown duration never lies: the number it shows, in the unit it shows,
/// is the duration.
pub proof fn lemma_duration_exact(ms: nat)
    ensures
        duration_text(ms) == text::digits(units_of(ms).0) + units_of(ms).1,
        units_of(ms).0 * units_of(ms).2 == ms,
{
    let n = units_of(ms).0;
    if ms == 0 {
        assert(n * 1_000 == ms);
    } else if ms % 3_600_000 == 0 {
        assert(n * 3_600_000 == ms);
    } else if ms % 60_000 == 0 {
        assert(n * 60_000 == ms);
    } else if ms < 60_000 && ms % 1_000 == 0 {
        assert(n * 1_000 == ms);
    } else {
        assert(n * 1 == ms);
    }
}

/// A section of the reference, with its table of fields.
#[derive(Debug)]
pub struct SectionDoc {
    /// Anchor for links.
    pub id: &'static str,
    /// Heading.
    pub title: &'static str,
    /// Rows of the table.
    pub fields: Vec<FieldDoc>,
}

/// A row of a reference table.
#[derive(Debug)]
pub struct FieldDoc {
    /// Name of the field.
    pub name: &'static str,
    /// Type of the field.
    pub ty: &'static str,
    /// Default of the field, as it is shown.
    pub default: String,
    /// What the field is for.
    pub description: String,
}

/// How a default is shown.
#[derive(Debug, Clone, Copy, PartialEq, Eq, Structural)]
pub enum Shown {
    /// The text as it is.
    Plain,
    /// The text, as code.
    Quoted,
    /// The number, as code.
    Number,
    /// The number as a duration, as code.
    Duration,
    /// The number, as code, which the shared defaults may replace.
    SharedNumber,
    /// The number as a duration, as code, which the shared defaults may
    /// replace.
    SharedDuration,
}

/// The words that a description lists.
#[derive(Debug, Clone, Copy, PartialEq, Eq, Structural)]
pub enum Words {
    /// None.
    Nothing,
    SplitModes,
    NumaStrategies,
    Runtimes,
    Networks,
    IpcModes,
    Relabels,
    Protocols,
}

/// A default: how it is shown, its text and its number.
pub type DefaultCell = (Shown, &'static str, u64);

/// A description: the words it lists, with the text before and behind them.
/// Its full stop is left out here.
pub type TextCell = (&'static str, Words, &'static str);

/// A field's name, type, default and description.
pub type Row = (&'static str, &'static str, DefaultCell, TextCell);

/// Container runtimes.
pub const RUNTIMES: [&'static str; 2] = ["docker", "podman"];

/// Network modes of a container.
pub const NETWORKS: [&'static str; 2] = ["bridge", "host"];

/// IPC namespaces of a container.
pub const IPC_MODES: [&'static str; 2] = ["private", "host"];

/// SELinux relabel policies.
pub const RELABELS: [&'static str; 2] = ["z", "Z"];

/// Protocols of a published port.
pub const PROTOCOLS: [&'static str; 2] = ["tcp", "udp"];

impl Words {
    /// The words themselves.
    pub open spec fn list(self) -> Seq<&'static str> {
        match self {
            Words::Nothing => Seq::empty(),
            Words::SplitModes => flags::split_mode::ALL@,
            Words::NumaStrategies => flags::numa::ALL@,
            Words::Runtimes => RUNTIMES@,
            Words::Networks => NETWORKS@,
            Words::IpcModes => IPC_MODES@,
            Words::Relabels => RELABELS@,
            Words::Protocols => PROTOCOLS@,
        }
    }

    /// The words as a list of code values.
    fn rendered(self) -> (r: String)
        ensures
            r@ == code_list(self.list()),
    {
        match self {
            Words::Nothing => code_values(&[]),
            Words::SplitModes => code_values(&flags::split_mode::ALL),
            Words::NumaStrategies => code_values(&flags::numa::ALL),
            Words::Runtimes => code_values(&RUNTIMES),
            Words::Networks => code_values(&NETWORKS),
            Words::IpcModes => code_values(&IPC_MODES),
            Words::Relabels => code_values(&RELABELS),
            Words::Protocols => code_values(&PROTOCOLS),
        }
    }
}

/// A text as code.
pub open spec fn code(s: Seq<char>) -> Seq<char> {
    "`"@ + s + "`"@
}

/// Values, each quoted and as code, with commas between them.
pub open spec fn code_list(values: Seq<&str>) -> Seq<char> {
    flags::list_of(values, "`\""@, "\"`"@)
}

/// Values, each quoted and as code, with commas between them.
pub fn code_values(values: &[&str]) -> (r: String)
    ensures
        r@ == code_list(values@),
{
    flags::wrapped_list(values, "`\"", "\"`")
}

/// A text as code.
pub fn bt(v: &str) -> (r: String)
    ensures
        r@ == code(v@),
{
    "`".to_owned().concat(v).concat("`")
}

/// A duration as code.
pub fn bt_dur(ms: u64) -> (r: String)
    ensures
        r@ == code(duration_text(ms as nat)),
{
    bt(fmt_duration_ms(ms).as_str())
}

/// A default as it is shown.
pub open spec fn default_text(cell: DefaultCell) -> Seq<char> {
    match cell.0 {
        Shown::Plain => cell.1@,
        Shown::Quoted => code(cell.1@),
        Shown::Number => code(text::digits(cell.2 as nat)),
        Shown::Duration => code(duration_text(cell.2 as nat)),
        Shown::SharedNumber => code(text::digits(cell.2 as nat)) + " (or `[defaults]` value)"@,
        Shown::SharedDuration => code(duration_text(cell.2 as nat)) + " (or `[defaults]` value)"@,
    }
}

/// A default as it is shown.
fn shown_default(cell: &DefaultCell) -> (r: String)
    ensures
        r@ == default_text(*cell),
{
    match cell.0 {
        Shown::Plain => cell.1.to_owned(),
        Shown::Quoted => bt(cell.1),
        Shown::Number => bt(text::decimal(cell.2).as_str()),
        Shown::Duration => bt_dur(cell.2),
        Shown::SharedNumber => bt(text::decimal(cell.2).as_str()).concat(
            " (or `[defaults]` value)",
        ),
        Shown::SharedDuration => bt_dur(cell.2).concat(" (or `[defaults]` value)"),
    }
}

/// A description as it is shown, which ends with a full stop.
pub open spec fn description_text(cell: TextCell) -> Seq<char> {
    cell.0@ + code_list(cell.1.list()) + cell.2@ + "."@
}

/// Whether `f` is the row of a reference table.
pub open spec fn shows_field(f: FieldDoc, row: Row) -> bool {
    &&& f.name@ == row.0@
    &&& f.ty@ == row.1@
    &&& f.default@ == default_text(row.2)
    &&& f.description@ == description_text(row.3)
}

/// A row of a reference table.
fn field(row: &Row) -> (r: FieldDoc)
    ensures
        shows_field(r, *row),
{
    let (lead, words, tail) = row.3;
    FieldDoc {
        name: row.0,
        ty: row.1,
        default: shown_default(&row.2),
        description: lead.to_owned().concat(words.rendered().as_str()).concat(tail).concat("."),
    }
}

/// Whether `s` is the section with this anchor and heading, and a field for
/// each row.
pub open spec fn shows_section(
    s: SectionDoc,
    id: Seq<char>,
    title: Seq<char>,
    rows: Seq<Row>,
) -> bool {
    &&& s.id@ == id
    &&& s.title@ == title
    &&& s.fields@.len() == rows.len()
    &&& forall|i: int| 0 <= i < rows.len() ==> shows_field(#[trigger] s.fields@[i], rows[i])
}

/// The section with this anchor and heading, and a field for each row.
pub fn section(id: &'static str, title: &'static str, rows: &[Row]) -> (r: SectionDoc)
    ensures
        shows_section(r, id@, title@, rows@),
{
    let mut fields: Vec<FieldDoc> = Vec::new();
    for i in 0..rows.len()
        invariant
            fields@.len() == i,
            forall|j: int| 0 <= j < i ==> shows_field(#[trigger] fields@[j], rows@[j]),
    {
        fields.push(field(&rows[i]));
    }
    SectionDoc { id, title, fields }
}

/// Whether every cell of a table row has something to show. A number always
/// has, and so has a description, by its full stop.
pub open spec fn is_filled(row: Row) -> bool {
    &&& row.0@.len() > 0
    &&& row.1@.len() > 0
    &&& row.2.0 is Plain ==> row.2.1@.len() > 0
}

/// Whether every cell of every row has something to show.
pub open spec fn all_filled(rows: Seq<Row>) -> bool {
    forall|i: int| 0 <= i < rows.len() ==> is_filled(#[trigger] rows[i])
}

/// Whether a section has an anchor, a heading and fields, and every field a
/// name, a type, a default and a description.
pub open spec fn is_complete(s: SectionDoc) -> bool {
    &&& s.id@.len() > 0
    &&& s.title@.len() > 0
    &&& s.fields@.len() > 0
    &&& forall|i: int|
        0 <= i < s.fields@.len() ==> {
            &&& (#[trigger] s.fields@[i]).name@.len() > 0
            &&& s.fields@[i].ty@.len() > 0
            &&& s.fields@[i].default@.len() > 0
            &&& s.fields@[i].description@.len() > 0
        }
}

pub(crate) proof fn lemma_section_complete(
    s: SectionDoc,
    id: Seq<char>,
    title: Seq<char>,
    rows: Seq<Row>,
)
    requires
        shows_section(s, id, title, rows),
        id.len() > 0,
        title.len() > 0,
        rows.len() > 0,
        all_filled(rows),
    ensures
        is_complete(s),
{
    reveal_strlit("`");
    reveal_strlit(".");
    assert forall|i: int| 0 <= i < s.fields@.len() implies {
        &&& (#[trigger] s.fields@[i]).name@.len() > 0
        &&& s.fields@[i].ty@.len() > 0
        &&& s.fields@[i].default@.len() > 0
        &&& s.fields@[i].description@.len() > 0
    } by {
        assert(shows_field(s.fields@[i], rows[i]));
        assert(is_filled(rows[i]));
    }
}

/// Whether `r` holds every section of the reference, in order.
pub open spec fn is_reference(r: Seq<SectionDoc>) -> bool {
    &&& r.len() == 21
    &&& daemon::is_listed(r.subrange(0, 4))
    &&& service::is_listed(r.subrange(4, 10))
    &&& auto_restart::is_listed(r.subrange(10, 16))
    &&& llama_cpp::is_listed(r.subrange(16, 19))
    &&& command::is_listed(r.subrange(19, 21))
}

/// Every section of the reference, in order.
pub fn all_sections() -> (r: Vec<SectionDoc>)
    ensures
        is_reference(r@),
{
    let mut r: Vec<SectionDoc> = daemon::sections();
    let mut more: Vec<SectionDoc> = service::sections();
    r.append(&mut more);
    more = auto_restart::sections();
    r.append(&mut more);
    more = llama_cpp::sections();
    r.append(&mut more);
    more = command::sections();
    r.append(&mut more);
    r
}

/// No section of the reference is missing anything: each has an anchor, a
/// heading and fields, each field a name, a type, a default and a
/// description.
pub proof fn lemma_sections_complete(r: Seq<SectionDoc>)
    requires
        is_reference(r),
    ensures
        forall|i: int| 0 <= i < r.len() ==> is_complete(#[trigger] r[i]),
{
    daemon::lemma_complete(r.subrange(0, 4));
    service::lemma_complete(r.subrange(4, 10));
    auto_restart::lemma_complete(r.subrange(10, 16));
    llama_cpp::lemma_complete(r.subrange(16, 19));
    command::lemma_complete(r.subrange(19, 21));
    assert forall|i: int| 0 <= i < r.len() implies is_complete(#[trigger] r[i]) by {
        if i < 4 {
            assert(r.subrange(0, 4)[i] == r[i]);
        } else if i < 10 {
            assert(r.subrange(4, 10)[i - 4] == r[i]);
        } else if i < 16 {
            assert(r.subrange(10, 16)[i - 10] == r[i]);
        } else if i < 19 {
            assert(r.subrange(16, 19)[i - 16] == r[i]);
        } else {
            assert(r.subrange(19, 21)[i - 19] == r[i]);
        }
    }
}

/// The anchors of the reference.
pub open spec fn anchors() -> Seq<Seq<char>> {
    seq![
        "daemon"@,
        "openai_api"@,
        "defaults"@,
        "devices"@,
        "service_common"@,
        "service_devices"@,
        "service_health"@,
        "service_allocation"@,
        "service_filters"@,
        "service_tracking"@,
        "service_auto_restart"@,
        "service_auto_restart_error_rate"@,
        "service_auto_restart_periodic"@,
        "service_auto_restart_ttft_stall"@,
        "service_auto_restart_generation_stall"@,
        "service_auto_restart_spec_collapse"@,
        "llama_cpp"@,
        "llama_cpp_estimation"@,
        "llama_cpp_sampling"@,
        "command"@,
        "openai_proxy"@,
    ]
}

proof fn lemma_anchors_distinct()
    ensures
        anchors().len() == 21,
        anchors().no_duplicates(),
{
    reveal_strlit("daemon");
    reveal_strlit("openai_api");
    reveal_strlit("defaults");
    reveal_strlit("devices");
    reveal_strlit("service_common");
    reveal_strlit("service_devices");
    reveal_strlit("service_health");
    reveal_strlit("service_allocation");
    reveal_strlit("service_filters");
    reveal_strlit("service_tracking");
    reveal_strlit("service_auto_restart");
    reveal_strlit("service_auto_restart_error_rate");
    reveal_strlit("service_auto_restart_periodic");
    reveal_strlit("service_auto_restart_ttft_stall");
    reveal_strlit("service_auto_restart_generation_stall");
    reveal_strlit("service_auto_restart_spec_collapse");
    reveal_strlit("llama_cpp");
    reveal_strlit("llama_cpp_estimation");
    reveal_strlit("llama_cpp_sampling");
    reveal_strlit("command");
    reveal_strlit("openai_proxy");
    let a = anchors();
    assert(a[0].len() == 6);
    assert(a[1].len() == 10);
    assert(a[2].len() == 8);
    assert(a[3].len() == 7);
    assert(a[4].len() == 14);
    assert(a[5].len() == 15);
    assert(a[6].len() == 14);
    assert(a[7].len() == 18);
    assert(a[8].len() == 15);
    assert(a[9].len() == 16);
    assert(a[10].len() == 20);
    assert(a[11].len() == 31);
    assert(a[12].len() == 29);
    assert(a[13].len() == 31);
    assert(a[14].len() == 37);
    assert(a[15].len() == 34);
    assert(a[16].len() == 9);
    assert(a[17].len() == 20);
    assert(a[18].len() == 18);
    assert(a[19].len() == 7);
    assert(a[20].len() == 12);
    // Most differ in length; these do not.
    assert(a[3][0] != a[19][0]);
    assert(a[4][8] != a[6][8]);
    assert(a[5][8] != a[8][8]);
    assert(a[7][0] != a[18][0]);
    assert(a[10][0] != a[17][0]);
    assert(a[11][21] != a[13][21]);
    assert forall|i: int, j: int| 0 <= i < j < a.len() implies a[i] != a[j] by {}
}

/// No two sections of the reference share an anchor.
pub proof fn lemma_anchors_lead_to_one_section(r: Seq<SectionDoc>)
    requires
        is_reference(r),
    ensures
        forall|i: int, j: int| 0 <= i < j < r.len() ==> (#[trigger] r[i]).id@ != (#[trigger] r[j]).id@,
{
    lemma_anchors_distinct();
    assert forall|i: int| 0 <= i < r.len() implies (#[trigger] r[i]).id@ == anchors()[i] by {
        if i < 4 {
            assert(r.subrange(0, 4)[i] == r[i]);
        } else if i < 10 {
            assert(r.subrange(4, 10)[i - 4] == r[i]);
        } else if i < 16 {
            assert(r.subrange(10, 16)[i - 10] == r[i]);
        } else if i < 19 {
            assert(r.subrange(16, 19)[i - 16] == r[i]);
        } else {
            assert(r.subrange(19, 21)[i - 19] == r[i]);
        }
    }
    assert forall|i: int, j: int| 0 <= i < j < r.len() implies (#[trigger] r[i]).id@ != (
    #[trigger] r[j]).id@ by {
        assert(anchors()[i] != anchors()[j]);
    }
}

} // verus!
