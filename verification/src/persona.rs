//! The manager's persona: which copy is authoritative, and which copies are only derived.
//!
//! The stored persona is what the manager runs on. The one compiled into the binary seeds it on a
//! first install and never overwrites it afterwards. What the running session holds is not
//! observable from here, so nothing below ever claims that it was verified.
use crate::json;
use crate::json::Field;
use crate::text;
use crate::time;
use crate::time::Instant;
use vstd::prelude::*;
use vstd::string::*;
use vstd::utf8::*;

verus! {

/// Files that are compiled into the daemon binary: a change to one of them leaves the binary stale.
pub const BUILD_INPUTS: [&'static str; 6] = [
    "daemon",
    "web",
    "Cargo.toml",
    "Cargo.lock",
    "docs/goals/agm-supervisor-persona.md",
    "scripts/agm.py",
];

/// One of the files that are not where code is expected, and the name it has in the code.
pub open spec fn embedded_file(path: Seq<char>, symbol: Seq<char>) -> Seq<char> {
    json::json_object(seq![("path"@, json::FieldView::Str(path)), ("symbol"@, json::FieldView::Str(symbol))])
}

pub open spec fn build_inputs() -> Seq<Seq<char>> {
    seq![
        "daemon"@,
        "web"@,
        "Cargo.toml"@,
        "Cargo.lock"@,
        "docs/goals/agm-supervisor-persona.md"@,
        "scripts/agm.py"@,
    ]
}

/// The answer to the question what goes into the binary.
pub open spec fn build_inputs_members() -> Seq<(Seq<char>, json::FieldView)> {
    seq![
        ("paths"@, json::FieldView::Json(json::json_list(build_inputs()))),
        (
            "embedded"@,
            json::FieldView::Json(
                json::json_array(
                    seq![
                        embedded_file("docs/goals/agm-supervisor-persona.md"@, "supervisor::setup::PERSONA_DOC"@),
                        embedded_file("scripts/agm.py"@, "supervisor::setup::AGM_CLI"@),
                    ],
                ),
            ),
        ),
        (
            "note"@,
            json::FieldView::Str(
                "changes here mean the release binary is behind; when to rebuild or restart is AGM's call"@,
            ),
        ),
    ]
}

fn file_json(path: &str, symbol: &str) -> (r: String)
    ensures
        r@ == embedded_file(path@, symbol@),
{
    let fields = [("path", Field::Str(path)), ("symbol", Field::Str(symbol))];
    assert(json::members(fields@) =~= seq![
        ("path"@, json::FieldView::Str(path@)),
        ("symbol"@, json::FieldView::Str(symbol@)),
    ]);
    json::object(&fields)
}

/// A change to one of these files means that the binary is stale, and not that anything must restart.
pub fn build_inputs_json() -> (r: String)
    ensures
        r@ == json::json_object(build_inputs_members()),
{
    let mut paths: Vec<String> = Vec::new();
    let mut i: usize = 0;
    assert(BUILD_INPUTS@ =~= seq![
        "daemon",
        "web",
        "Cargo.toml",
        "Cargo.lock",
        "docs/goals/agm-supervisor-persona.md",
        "scripts/agm.py",
    ]);
    while i < 6
        invariant
            i <= 6,
            paths.len() == i,
            BUILD_INPUTS@.len() == 6,
            forall|j: int| 0 <= j < i ==> (#[trigger] paths@[j])@ == BUILD_INPUTS@[j]@,
        decreases 6 - i,
    {
        paths.push(BUILD_INPUTS[i].to_owned());
        i += 1;
    }
    assert(text::texts(paths@) =~= build_inputs());
    let list = json::list_text(paths.as_slice());
    let mut files: Vec<String> = Vec::new();
    files.push(file_json("docs/goals/agm-supervisor-persona.md", "supervisor::setup::PERSONA_DOC"));
    files.push(file_json("scripts/agm.py", "supervisor::setup::AGM_CLI"));
    assert(text::texts(files@) =~= seq![
        embedded_file("docs/goals/agm-supervisor-persona.md"@, "supervisor::setup::PERSONA_DOC"@),
        embedded_file("scripts/agm.py"@, "supervisor::setup::AGM_CLI"@),
    ]);
    let embedded = json::array(&files);
    let fields = [
        ("paths", Field::Json(list.as_str())),
        ("embedded", Field::Json(embedded.as_str())),
        (
            "note",
            Field::Str("changes here mean the release binary is behind; when to rebuild or restart is AGM's call"),
        ),
    ];
    assert(json::members(fields@) =~= build_inputs_members());
    json::object(&fields)
}

// ---------------------------------------------------------------- hash

pub const FNV_OFFSET: u64 = 0xcbf2_9ce4_8422_2325;

pub const FNV_PRIME: u64 = 0x0000_0100_0000_01b3;

/// One byte folded into an FNV-1a state.
pub open spec fn fnv_step(h: u64, b: u8) -> u64 {
    ((h ^ (b as u64)) as int * FNV_PRIME as int % 0x1_0000_0000_0000_0000) as u64
}

/// The 64-bit FNV-1a hash of a byte sequence.
pub open spec fn fnv1a(bytes: Seq<u8>) -> u64
    decreases bytes.len(),
{
    if bytes.len() == 0 {
        FNV_OFFSET
    } else {
        fnv_step(fnv1a(bytes.drop_last()), bytes.last())
    }
}

pub open spec fn hex_digit(d: int) -> char {
    if d < 10 {
        (d + 48) as char
    } else {
        (d + 87) as char
    }
}

/// The last `width` lowercase hexadecimal digits of a number.
pub open spec fn hex(n: int, width: nat) -> Seq<char>
    decreases width,
{
    if width == 0 {
        seq![]
    } else {
        hex(n / 16, (width - 1) as nat).push(hex_digit(n % 16))
    }
}

/// How a persona text is identified: `fnv1a64:` and sixteen hexadecimal digits.
pub open spec fn hash_text(persona: Seq<char>) -> Seq<char> {
    "fnv1a64:"@ + hex(fnv1a(encode_utf8(persona)) as int, 16)
}

fn hex_text(d: u64) -> (r: &'static str)
    requires
        d < 16,
    ensures
        r@ == seq![hex_digit(d as int)],
{
    proof {
        reveal_strlit("0");
        reveal_strlit("1");
        reveal_strlit("2");
        reveal_strlit("3");
        reveal_strlit("4");
        reveal_strlit("5");
        reveal_strlit("6");
        reveal_strlit("7");
        reveal_strlit("8");
        reveal_strlit("9");
        reveal_strlit("a");
        reveal_strlit("b");
        reveal_strlit("c");
        reveal_strlit("d");
        reveal_strlit("e");
        reveal_strlit("f");
    }
    if d == 0 {
        "0"
    } else if d == 1 {
        "1"
    } else if d == 2 {
        "2"
    } else if d == 3 {
        "3"
    } else if d == 4 {
        "4"
    } else if d == 5 {
        "5"
    } else if d == 6 {
        "6"
    } else if d == 7 {
        "7"
    } else if d == 8 {
        "8"
    } else if d == 9 {
        "9"
    } else if d == 10 {
        "a"
    } else if d == 11 {
        "b"
    } else if d == 12 {
        "c"
    } else if d == 13 {
        "d"
    } else if d == 14 {
        "e"
    } else {
        "f"
    }
}

fn hex_of(n: u64, width: u64) -> (r: String)
    ensures
        r@ == hex(n as int, width as nat),
    decreases width,
{
    if width == 0 {
        String::new()
    } else {
        let mut s = hex_of(n / 16, width - 1);
        s.append(hex_text(n % 16));
        assert(s@ =~= hex(n as int / 16, (width - 1) as nat).push(hex_digit(n as int % 16)));
        s
    }
}

/// FNV-1a, 64-bit. Not a cryptographic hash: it answers whether this is the text that was
/// recorded, and it means the same thing in every build.
pub fn hash(text: &str) -> (r: String)
    ensures
        r@ == hash_text(text@),
{
    let bytes = text.as_bytes();
    let mut h: u64 = FNV_OFFSET;
    let mut i: usize = 0;
    assert(bytes@.take(0) =~= Seq::<u8>::empty());
    while i < bytes.len()
        invariant
            i <= bytes.len(),
            h == fnv1a(bytes@.take(i as int)),
        decreases bytes.len() - i,
    {
        let ghost upto = bytes@.take(i as int + 1);
        assert(upto.drop_last() =~= bytes@.take(i as int));
        let b: u8 = bytes[i];
        h = (h ^ (b as u64)).wrapping_mul(FNV_PRIME);
        i += 1;
    }
    assert(bytes@.take(i as int) =~= bytes@);
    text::joined("fnv1a64:", hex_of(h, 16).as_str())
}

// ---------------------------------------------------------------- the running session

/// How the running session relates to the stored persona.
///
/// Deliberately has no `verified` case: the best true statement is that the session was started
/// with this text.
#[derive(Debug, Clone, Copy, PartialEq, Eq, Structural)]
pub enum Loaded {
    /// Nothing is running, so nothing has loaded anything.
    NotRunning,
    /// The session predates the current persona: it is running an older text.
    Stale,
    /// The session was started after the persona was last written.
    StartedWithCurrent,
}

/// The session runs on an older text.
pub open spec fn is_behind(state: Loaded) -> bool {
    state == Loaded::Stale
}

/// The word for what the running session was started with.
pub open spec fn word(state: Loaded) -> Seq<char> {
    match state {
        Loaded::NotRunning => "unknown"@,
        Loaded::Stale => "stale"@,
        Loaded::StartedWithCurrent => "unverified"@,
    }
}

impl Loaded {
    pub fn as_str(self) -> (r: &'static str)
        ensures
            r@ == word(self),
    {
        match self {
            Loaded::NotRunning => "unknown",
            Loaded::Stale => "stale",
            Loaded::StartedWithCurrent => "unverified",
        }
    }

    /// Only a session that predates the text needs a restart to pick it up.
    pub fn needs_restart(self) -> (r: bool)
        ensures
            r == is_behind(self),
    {
        self == Loaded::Stale
    }
}

/// What two instants say of the session: a session that began before the text was written is stale.
pub open spec fn loaded_at(started: Option<Instant>, updated: Option<Instant>) -> Loaded {
    match (started, updated) {
        (Some(s), Some(u)) => if s.earlier(u) {
            Loaded::Stale
        } else {
            Loaded::StartedWithCurrent
        },
        _ => Loaded::NotRunning,
    }
}

/// What can be said of a session and a persona from when the one began and the other was written.
/// An unreadable time is evidence of nothing.
pub open spec fn loaded(started: Option<Seq<char>>, updated: Option<Seq<char>>) -> Loaded {
    match (started, updated) {
        (None, _) => Loaded::NotRunning,
        (Some(_), None) => Loaded::StartedWithCurrent,
        (Some(s), Some(u)) => loaded_at(time::rfc3339(s), time::rfc3339(u)),
    }
}

pub fn loaded_between(started: Option<Instant>, updated: Option<Instant>) -> (r: Loaded)
    ensures
        r == loaded_at(started, updated),
{
    match (started, updated) {
        (Some(s), Some(u)) => if s.is_before(u) {
            Loaded::Stale
        } else {
            Loaded::StartedWithCurrent
        },
        _ => Loaded::NotRunning,
    }
}

/// `run_started_at` and `persona_updated_at` are RFC 3339.
pub fn loaded_state(run_started_at: Option<&str>, persona_updated_at: Option<&str>) -> (r: Loaded)
    ensures
        r == loaded(text::arg(run_started_at), text::arg(persona_updated_at)),
{
    match (run_started_at, persona_updated_at) {
        (None, _) => Loaded::NotRunning,
        (Some(_), None) => Loaded::StartedWithCurrent,
        (Some(s), Some(u)) => loaded_between(time::parse_rfc3339(s), time::parse_rfc3339(u)),
    }
}

/// A restart is asked for only of a session that is known to predate the text.
pub proof fn only_an_older_session_needs_a_restart(started: Option<Seq<char>>, updated: Option<Seq<char>>)
    ensures
        loaded(started, updated) == Loaded::Stale <==> {
            &&& started is Some
            &&& updated is Some
            &&& time::rfc3339(started->0) is Some
            &&& time::rfc3339(updated->0) is Some
            &&& time::rfc3339(started->0)->0.earlier(time::rfc3339(updated->0)->0)
        },
        is_behind(loaded(started, updated)) <==> loaded(started, updated) == Loaded::Stale,
{
}

/// A session that is not running has loaded nothing, and so has one whose times cannot be read; one that
/// began before the text was written is stale, and any other was started with it.
pub proof fn what_a_session_was_started_with(started: Option<Seq<char>>, updated: Option<Seq<char>>)
    ensures
        started is None ==> loaded(started, updated) == Loaded::NotRunning,
        started is Some && updated is None ==> loaded(started, updated) == Loaded::StartedWithCurrent,
        started is Some && updated is Some && (time::rfc3339(started->0) is None || time::rfc3339(updated->0) is None)
            ==> loaded(started, updated) == Loaded::NotRunning,
        started is Some && updated is Some && time::rfc3339(started->0) is Some && time::rfc3339(updated->0) is Some ==> {
            let (s, u) = (time::rfc3339(started->0)->0, time::rfc3339(updated->0)->0);
            loaded(started, updated) == if s.secs < u.secs || (s.secs == u.secs && s.nanos < u.nanos) {
                Loaded::Stale
            } else {
                Loaded::StartedWithCurrent
            }
        },
        word(Loaded::NotRunning) == "unknown"@,
        word(Loaded::Stale) == "stale"@,
        word(Loaded::StartedWithCurrent) == "unverified"@,
{
}

/// The hash begins at its basis, and each byte is folded in by an exclusive or and a product modulo the
/// sixty-fourth power of two.
pub proof fn the_hash_folds_in_each_byte(bytes: Seq<u8>, b: u8)
    ensures
        fnv1a(seq![]) == 0xcbf2_9ce4_8422_2325u64,
        fnv1a(bytes.push(b)) == (((fnv1a(bytes) ^ (b as u64)) as int * 0x0000_0100_0000_01b3)
            % 0x1_0000_0000_0000_0000) as u64,
{
    assert(bytes.push(b).drop_last() =~= bytes);
}

/// A number is written with as many hexadecimal digits as asked for, its lowest last; a text is
/// identified by the sixteen digits of its hash.
pub proof fn a_hash_is_written_in_hexadecimal(n: int, width: nat, text: Seq<char>)
    ensures
        hex(n, width).len() == width,
        width > 0 ==> hex(n, width).drop_last() == hex(n / 16, (width - 1) as nat) && hex(n, width).last() == hex_digit(n % 16),
        forall|d: int| 0 <= d < 10 ==> #[trigger] hex_digit(d) as int == '0' as int + d,
        forall|d: int| 10 <= d < 16 ==> #[trigger] hex_digit(d) as int == 'a' as int + d - 10,
        hash_text(text).len() == 24,
        hash_text(text).take(8) == "fnv1a64:"@,
        hash_text(text).skip(8) == hex(fnv1a(encode_utf8(text)) as int, 16),
    decreases width,
{
    reveal_strlit("fnv1a64:");
    hex_is_as_wide(n, width);
    hex_is_as_wide(fnv1a(encode_utf8(text)) as int, 16);
    if width > 0 {
        assert(hex(n, width).drop_last() =~= hex(n / 16, (width - 1) as nat));
    }
    assert(hash_text(text).take(8) =~= "fnv1a64:"@);
    assert(hash_text(text).skip(8) =~= hex(fnv1a(encode_utf8(text)) as int, 16));
}

proof fn hex_is_as_wide(n: int, width: nat)
    ensures
        hex(n, width).len() == width,
    decreases width,
{
    if width > 0 {
        hex_is_as_wide(n / 16, (width - 1) as nat);
    }
}

} // verus!
