//! The message protocol between the daemon, the overlay and the watcher:
//! a closed set of messages, carried as one value per line over a local
//! channel. The library frames and unframes the lines itself; the process
//! around it only moves the bytes.

use vstd::prelude::*;
use crate::config::{ConfigV, TextraConfig};
use crate::parser::{parse_textra_config, serialize_textra_config, spec_concat_map,
    lemma_concat_map_snoc, spec_parse_entries, spec_serialize_config};
use crate::text::{chars_to_string, str_to_chars};
use crate::textscan::{segment, spec_starts_with_at, starts_with_at};
use crate::config::str_eq_string;

verus! {

/// A message exchanged between the daemon, the overlay and the watcher.
/// Messages are values: none holds a handle to engine-internal state.
#[derive(Debug, Clone, PartialEq)]
pub enum IpcMessage {
    ShiftShiftDetected,
    TemplateSelected { text: String },
    HideOverlay,
    ShowOverlay,
    ShutdownOverlay,
    ConfigReloaded { config: TextraConfig },
    UpdateConfig,
    StartDaemon,
    StopDaemon,
    StartOverlay,
    StopOverlay,
    StatusRequest,
    StatusResponse { daemon_running: bool, overlay_running: bool, autostart_enabled: bool },
}

/// Mathematical model of a message.
#[verifier::ext_equal]
pub ghost enum IpcMessageV {
    ShiftShiftDetected,
    TemplateSelected { text: Seq<char> },
    HideOverlay,
    ShowOverlay,
    ShutdownOverlay,
    ConfigReloaded { config: ConfigV },
    UpdateConfig,
    StartDaemon,
    StopDaemon,
    StartOverlay,
    StopOverlay,
    StatusRequest,
    StatusResponse { daemon_running: bool, overlay_running: bool, autostart_enabled: bool },
}

impl View for IpcMessage {
    type V = IpcMessageV;

    open spec fn view(&self) -> IpcMessageV {
        match self {
            IpcMessage::ShiftShiftDetected => IpcMessageV::ShiftShiftDetected,
            IpcMessage::TemplateSelected { text } => IpcMessageV::TemplateSelected {
                text: text@,
            },
            IpcMessage::HideOverlay => IpcMessageV::HideOverlay,
            IpcMessage::ShowOverlay => IpcMessageV::ShowOverlay,
            IpcMessage::ShutdownOverlay => IpcMessageV::ShutdownOverlay,
            IpcMessage::ConfigReloaded { config } => IpcMessageV::ConfigReloaded {
                config: config@,
            },
            IpcMessage::UpdateConfig => IpcMessageV::UpdateConfig,
            IpcMessage::StartDaemon => IpcMessageV::StartDaemon,
            IpcMessage::StopDaemon => IpcMessageV::StopDaemon,
            IpcMessage::StartOverlay => IpcMessageV::StartOverlay,
            IpcMessage::StopOverlay => IpcMessageV::StopOverlay,
            IpcMessage::StatusRequest => IpcMessageV::StatusRequest,
            IpcMessage::StatusResponse { daemon_running, overlay_running, autostart_enabled } =>
                IpcMessageV::StatusResponse {
                daemon_running: *daemon_running,
                overlay_running: *overlay_running,
                autostart_enabled: *autostart_enabled,
            },
        }
    }
}

/// Frame opening of a selected-template message.
pub const TEMPLATE_PREFIX: &'static str = "{\"TemplateSelected\":{\"text\":\"";

/// Frame opening of a configuration snapshot message.
pub const CONFIG_PREFIX: &'static str = "{\"ConfigReloaded\":{\"config\":\"";

/// Frame closing of the payload-carrying messages.
pub const PAYLOAD_SUFFIX: &'static str = "\"}}";

/// How one character is written inside a quoted payload: quote, backslash,
/// line break, carriage return and tab are escaped, everything else stands
/// for itself.
pub open spec fn spec_escape_char(c: char) -> Seq<char> {
    if c == '"' {
        seq!['\\', '"']
    } else if c == '\\' {
        seq!['\\', '\\']
    } else if c == '\n' {
        seq!['\\', 'n']
    } else if c == '\r' {
        seq!['\\', 'r']
    } else if c == '\t' {
        seq!['\\', 't']
    } else {
        seq![c]
    }
}

/// A payload with every character escaped.
pub open spec fn spec_escape(s: Seq<char>) -> Seq<char> {
    spec_concat_map(s, |c: char| spec_escape_char(c))
}

/// Escape a payload for transport inside a quoted frame.
fn escape_string(s: &str) -> (r: String)
    ensures
        r@ == spec_escape(s@),
{
    let ghost f = |c: char| spec_escape_char(c);
    let sv = str_to_chars(s);
    let n = sv.len();
    let mut out: Vec<char> = Vec::new();
    let mut i: usize = 0;
    proof {
        assert(s@.take(0) =~= Seq::<char>::empty());
    }
    while i < n
        invariant
            sv@ == s@,
            n == s@.len(),
            i <= n,
            f == (|c: char| spec_escape_char(c)),
            out@ == spec_concat_map(s@.take(i as int), f),
        decreases n - i,
    {
        let c = sv[i];
        if c == '"' {
            out.push('\\');
            out.push('"');
        } else if c == '\\' {
            out.push('\\');
            out.push('\\');
        } else if c == '\n' {
            out.push('\\');
            out.push('n');
        } else if c == '\r' {
            out.push('\\');
            out.push('r');
        } else if c == '\t' {
            out.push('\\');
            out.push('t');
        } else {
            out.push(c);
        }
        proof {
            lemma_concat_map_snoc(s@.take(i as int), s@[i as int], f);
            assert(s@.take(i as int).push(s@[i as int]) =~= s@.take(i as int + 1));
            assert(out@ =~= spec_concat_map(s@.take(i as int), f)
                + spec_escape_char(s@[i as int]));
        }
        i += 1;
    }
    proof {
        assert(s@.take(n as int) =~= s@);
    }
    chars_to_string(&out)
}

/// The unescaped payload from position `i` on, or nothing when an escape
/// is malformed or a bare quote appears.
pub open spec fn spec_unescape_from(s: Seq<char>, i: int) -> Option<Seq<char>>
    decreases s.len() - i when 0 <= i <= s.len()
{
    if i >= s.len() {
        Some(Seq::<char>::empty())
    } else if s[i] == '\\' {
        if i + 1 >= s.len() {
            None
        } else {
            let c = s[i + 1];
            if c == '"' || c == '\\' || c == 'n' || c == 'r' || c == 't' {
                let d = if c == '"' {
                    '"'
                } else if c == '\\' {
                    '\\'
                } else if c == 'n' {
                    '\n'
                } else if c == 'r' {
                    '\r'
                } else {
                    '\t'
                };
                match spec_unescape_from(s, i + 2) {
                    Some(rest) => Some(seq![d] + rest),
                    None => None,
                }
            } else {
                None
            }
        }
    } else if s[i] == '"' {
        None
    } else {
        match spec_unescape_from(s, i + 1) {
            Some(rest) => Some(seq![s[i]] + rest),
            None => None,
        }
    }
}

/// Undo the payload escaping; a malformed escape or a bare quote refuses
/// the whole payload.
fn unescape_chars(sv: &Vec<char>) -> (r: Option<Vec<char>>)
    ensures
        match r {
            Some(v) => spec_unescape_from(sv@, 0) == Some(v@) && v@.len() <= sv@.len(),
            None => spec_unescape_from(sv@, 0) is None,
        },
{
    let n = sv.len();
    let mut out: Vec<char> = Vec::new();
    let mut i: usize = 0;
    while i < n
        invariant
            n == sv@.len(),
            i <= n,
            out@.len() <= i,
            match spec_unescape_from(sv@, i as int) {
                Some(rest) => spec_unescape_from(sv@, 0) == Some(out@ + rest),
                None => spec_unescape_from(sv@, 0) is None,
            },
        decreases n - i,
    {
        let c = sv[i];
        if c == '\\' {
            if i + 1 >= n {
                return None;
            }
            let e = sv[i + 1];
            let d = if e == '"' {
                '"'
            } else if e == '\\' {
                '\\'
            } else if e == 'n' {
                '\n'
            } else if e == 'r' {
                '\r'
            } else if e == 't' {
                '\t'
            } else {
                return None;
            };
            let ghost o0 = out@;
            out.push(d);
            proof {
                match spec_unescape_from(sv@, i as int + 2) {
                    Some(rest) => {
                        assert(o0 + (seq![d] + rest) =~= (o0 + seq![d]) + rest);
                        assert(out@ =~= o0 + seq![d]);
                    },
                    None => {},
                }
            }
            i += 2;
        } else if c == '"' {
            return None;
        } else {
            let ghost o0 = out@;
            out.push(c);
            proof {
                match spec_unescape_from(sv@, i as int + 1) {
                    Some(rest) => {
                        assert(o0 + (seq![c] + rest) =~= (o0 + seq![c]) + rest);
                        assert(out@ =~= o0 + seq![c]);
                    },
                    None => {},
                }
            }
            i += 1;
        }
    }
    proof {
        assert(out@ + Seq::<char>::empty() =~= out@);
    }
    Some(out)
}

proof fn lemma_unescape_shift(a: Seq<char>, x: Seq<char>, k: int)
    requires
        0 <= k <= x.len(),
    ensures
        spec_unescape_from(a + x, a.len() + k) == spec_unescape_from(x, k),
    decreases x.len() - k,
{
    let e = a + x;
    if k < x.len() {
        assert(e[a.len() + k] == x[k]);
        if x[k] == '\\' {
            if k + 1 < x.len() {
                assert(e[a.len() + k + 1] == x[k + 1]);
                lemma_unescape_shift(a, x, k + 2);
            }
        } else if x[k] != '"' {
            lemma_unescape_shift(a, x, k + 1);
        }
    }
}

proof fn lemma_unescape_append(e: Seq<char>, x: Seq<char>, i: int)
    requires
        0 <= i <= e.len(),
        spec_unescape_from(e, i) is Some,
    ensures
        spec_unescape_from(e + x, i) == (match spec_unescape_from(x, 0) {
            Some(v) => Some(spec_unescape_from(e, i).unwrap() + v),
            None => None::<Seq<char>>,
        }),
    decreases e.len() - i,
{
    let w = e + x;
    if i >= e.len() {
        lemma_unescape_shift(e, x, 0);
        match spec_unescape_from(x, 0) {
            Some(v) => {
                assert(spec_unescape_from(e, i).unwrap() + v =~= v);
            },
            None => {},
        }
    } else {
        assert(w[i] == e[i]);
        if e[i] == '\\' {
            assert(i + 1 < e.len());
            assert(w[i + 1] == e[i + 1]);
            lemma_unescape_append(e, x, i + 2);
            match spec_unescape_from(x, 0) {
                Some(v) => {
                    let c = e[i + 1];
                    let d = if c == '"' {
                        '"'
                    } else if c == '\\' {
                        '\\'
                    } else if c == 'n' {
                        '\n'
                    } else if c == 'r' {
                        '\r'
                    } else {
                        '\t'
                    };
                    assert(seq![d] + (spec_unescape_from(e, i + 2).unwrap() + v)
                        =~= (seq![d] + spec_unescape_from(e, i + 2).unwrap()) + v);
                },
                None => {},
            }
        } else {
            assert(e[i] != '"');
            lemma_unescape_append(e, x, i + 1);
            match spec_unescape_from(x, 0) {
                Some(v) => {
                    assert(seq![e[i]] + (spec_unescape_from(e, i + 1).unwrap() + v)
                        =~= (seq![e[i]] + spec_unescape_from(e, i + 1).unwrap()) + v);
                },
                None => {},
            }
        }
    }
}

proof fn lemma_unescape_one(c: char)
    ensures
        spec_unescape_from(spec_escape_char(c), 0) == Some(seq![c]),
{
    let e = spec_escape_char(c);
    if c == '"' || c == '\\' || c == '\n' || c == '\r' || c == '\t' {
        assert(e.len() == 2 && e[0] == '\\');
        assert(spec_unescape_from(e, 2) == Some(Seq::<char>::empty()));
        assert(seq![c] + Seq::<char>::empty() =~= seq![c]);
    } else {
        assert(e =~= seq![c]);
        assert(spec_unescape_from(e, 1) == Some(Seq::<char>::empty()));
        assert(seq![c] + Seq::<char>::empty() =~= seq![c]);
    }
}

/// Unescaping undoes escaping: every payload comes back from the wire
/// exactly as it went on.
pub proof fn lemma_escape_round_trip(s: Seq<char>)
    ensures
        spec_unescape_from(spec_escape(s), 0) == Some(s),
    decreases s.len(),
{
    let f = |c: char| spec_escape_char(c);
    if s.len() == 0 {
        assert(spec_escape(s) =~= Seq::<char>::empty());
    } else {
        let s0 = s.drop_last();
        let c = s.last();
        lemma_escape_round_trip(s0);
        crate::parser::lemma_concat_map_snoc(s0, c, f);
        assert(s0.push(c) =~= s);
        lemma_unescape_one(c);
        lemma_unescape_append(spec_escape(s0), spec_escape_char(c), 0);
        assert(s0 + seq![c] =~= s);
    }
}

/// The text a flag is written as.
pub open spec fn spec_bool_json(b: bool) -> Seq<char> {
    if b {
        "true"@
    } else {
        "false"@
    }
}

/// The one-line wire form of a message: payload-free messages are a bare
/// quoted name; the selected template and the configuration snapshot carry
/// their text escaped inside a quoted field; the status response carries
/// its three flags.
pub open spec fn spec_encode_message(m: IpcMessageV) -> Seq<char> {
    match m {
        IpcMessageV::ShiftShiftDetected => "\"ShiftShiftDetected\""@,
        IpcMessageV::TemplateSelected { text } => TEMPLATE_PREFIX@ + spec_escape(text)
            + PAYLOAD_SUFFIX@,
        IpcMessageV::HideOverlay => "\"HideOverlay\""@,
        IpcMessageV::ShowOverlay => "\"ShowOverlay\""@,
        IpcMessageV::ShutdownOverlay => "\"ShutdownOverlay\""@,
        IpcMessageV::ConfigReloaded { config } => CONFIG_PREFIX@ + spec_escape(
            spec_serialize_config(config),
        ) + PAYLOAD_SUFFIX@,
        IpcMessageV::UpdateConfig => "\"UpdateConfig\""@,
        IpcMessageV::StartDaemon => "\"StartDaemon\""@,
        IpcMessageV::StopDaemon => "\"StopDaemon\""@,
        IpcMessageV::StartOverlay => "\"StartOverlay\""@,
        IpcMessageV::StopOverlay => "\"StopOverlay\""@,
        IpcMessageV::StatusRequest => "\"StatusRequest\""@,
        IpcMessageV::StatusResponse { daemon_running, overlay_running, autostart_enabled } =>
            "{\"StatusResponse\":{\"daemon_running\":"@ + spec_bool_json(daemon_running)
            + ",\"overlay_running\":"@ + spec_bool_json(overlay_running)
            + ",\"autostart_enabled\":"@ + spec_bool_json(autostart_enabled) + "}}"@,
    }
}

fn bool_json(b: bool) -> (r: &'static str)
    ensures
        r@ == spec_bool_json(b),
{
    if b {
        "true"
    } else {
        "false"
    }
}

/// Write a message as one line.
pub fn encode_ipc_message(message: &IpcMessage) -> (r: String)
    ensures
        r@ == spec_encode_message(message@),
{
    match message {
        IpcMessage::ShiftShiftDetected => String::from_str("\"ShiftShiftDetected\""),
        IpcMessage::TemplateSelected { text } => {
            let mut s = String::from_str(TEMPLATE_PREFIX);
            let esc = escape_string(text.as_str());
            s.append(esc.as_str());
            s.append(PAYLOAD_SUFFIX);
            s
        },
        IpcMessage::HideOverlay => String::from_str("\"HideOverlay\""),
        IpcMessage::ShowOverlay => String::from_str("\"ShowOverlay\""),
        IpcMessage::ShutdownOverlay => String::from_str("\"ShutdownOverlay\""),
        IpcMessage::ConfigReloaded { config } => {
            let mut s = String::from_str(CONFIG_PREFIX);
            let text = serialize_textra_config(config);
            let esc = escape_string(text.as_str());
            s.append(esc.as_str());
            s.append(PAYLOAD_SUFFIX);
            s
        },
        IpcMessage::UpdateConfig => String::from_str("\"UpdateConfig\""),
        IpcMessage::StartDaemon => String::from_str("\"StartDaemon\""),
        IpcMessage::StopDaemon => String::from_str("\"StopDaemon\""),
        IpcMessage::StartOverlay => String::from_str("\"StartOverlay\""),
        IpcMessage::StopOverlay => String::from_str("\"StopOverlay\""),
        IpcMessage::StatusRequest => String::from_str("\"StatusRequest\""),
        IpcMessage::StatusResponse { daemon_running, overlay_running, autostart_enabled } => {
            let mut s = String::from_str("{\"StatusResponse\":{\"daemon_running\":");
            s.append(bool_json(*daemon_running));
            s.append(",\"overlay_running\":");
            s.append(bool_json(*overlay_running));
            s.append(",\"autostart_enabled\":");
            s.append(bool_json(*autostart_enabled));
            s.append("}}");
            s
        },
    }
}

/// The message a line stands for: a payload-free message is recognized by
/// its exact wire form; a framed payload is unescaped, and a configuration
/// snapshot is parsed back; anything else is refused.
pub open spec fn spec_decode_message(line: Seq<char>) -> Option<IpcMessageV> {
    if line == spec_encode_message(IpcMessageV::ShiftShiftDetected) {
        Some(IpcMessageV::ShiftShiftDetected)
    } else if line == spec_encode_message(IpcMessageV::HideOverlay) {
        Some(IpcMessageV::HideOverlay)
    } else if line == spec_encode_message(IpcMessageV::ShowOverlay) {
        Some(IpcMessageV::ShowOverlay)
    } else if line == spec_encode_message(IpcMessageV::ShutdownOverlay) {
        Some(IpcMessageV::ShutdownOverlay)
    } else if line == spec_encode_message(IpcMessageV::UpdateConfig) {
        Some(IpcMessageV::UpdateConfig)
    } else if line == spec_encode_message(IpcMessageV::StartDaemon) {
        Some(IpcMessageV::StartDaemon)
    } else if line == spec_encode_message(IpcMessageV::StopDaemon) {
        Some(IpcMessageV::StopDaemon)
    } else if line == spec_encode_message(IpcMessageV::StartOverlay) {
        Some(IpcMessageV::StartOverlay)
    } else if line == spec_encode_message(IpcMessageV::StopOverlay) {
        Some(IpcMessageV::StopOverlay)
    } else if line == spec_encode_message(IpcMessageV::StatusRequest) {
        Some(IpcMessageV::StatusRequest)
    } else if spec_is_framed(line, TEMPLATE_PREFIX@) {
        match spec_unescape_from(spec_frame_payload(line, TEMPLATE_PREFIX@), 0) {
            Some(t) => Some(IpcMessageV::TemplateSelected { text: t }),
            None => None,
        }
    } else if spec_is_framed(line, CONFIG_PREFIX@) {
        match spec_unescape_from(spec_frame_payload(line, CONFIG_PREFIX@), 0) {
            Some(txt) => match spec_parse_entries(txt, 0) {
                Ok(c) => Some(IpcMessageV::ConfigReloaded { config: c }),
                Err(_) => None,
            },
            None => None,
        }
    } else if line == spec_encode_message(spec_status(true, true, true)) {
        Some(spec_status(true, true, true))
    } else if line == spec_encode_message(spec_status(true, true, false)) {
        Some(spec_status(true, true, false))
    } else if line == spec_encode_message(spec_status(true, false, true)) {
        Some(spec_status(true, false, true))
    } else if line == spec_encode_message(spec_status(true, false, false)) {
        Some(spec_status(true, false, false))
    } else if line == spec_encode_message(spec_status(false, true, true)) {
        Some(spec_status(false, true, true))
    } else if line == spec_encode_message(spec_status(false, true, false)) {
        Some(spec_status(false, true, false))
    } else if line == spec_encode_message(spec_status(false, false, true)) {
        Some(spec_status(false, false, true))
    } else if line == spec_encode_message(spec_status(false, false, false)) {
        Some(spec_status(false, false, false))
    } else {
        None
    }
}

/// A status response with the given flags.
pub open spec fn spec_status(d: bool, o: bool, a: bool) -> IpcMessageV {
    IpcMessageV::StatusResponse {
        daemon_running: d,
        overlay_running: o,
        autostart_enabled: a,
    }
}

/// The line opens with the given frame and closes with the payload
/// suffix, with room for both.
pub open spec fn spec_is_framed(line: Seq<char>, prefix: Seq<char>) -> bool {
    &&& line.len() >= PAYLOAD_SUFFIX@.len()
    &&& line.len() - PAYLOAD_SUFFIX@.len() >= prefix.len()
    &&& spec_starts_with_at(line, 0, prefix)
    &&& spec_starts_with_at(line, line.len() - PAYLOAD_SUFFIX@.len(), PAYLOAD_SUFFIX@)
}

/// The escaped payload between the frame's opening and closing.
pub open spec fn spec_frame_payload(line: Seq<char>, prefix: Seq<char>) -> Seq<char> {
    line.subrange(prefix.len() as int, line.len() - PAYLOAD_SUFFIX@.len())
}

/// A selected template survives the wire: encoding it and reading the
/// line back yields exactly the message that was sent, whatever the text.
pub proof fn lemma_template_round_trip(t: Seq<char>)
    ensures
        spec_decode_message(spec_encode_message(IpcMessageV::TemplateSelected { text: t }))
            == Some(IpcMessageV::TemplateSelected { text: t }),
{
    reveal_strlit("{\"TemplateSelected\":{\"text\":\"");
    reveal_strlit("\"}}");
    reveal_strlit("\"ShiftShiftDetected\"");
    reveal_strlit("\"HideOverlay\"");
    reveal_strlit("\"ShowOverlay\"");
    reveal_strlit("\"ShutdownOverlay\"");
    reveal_strlit("\"UpdateConfig\"");
    reveal_strlit("\"StartDaemon\"");
    reveal_strlit("\"StopDaemon\"");
    reveal_strlit("\"StartOverlay\"");
    reveal_strlit("\"StopOverlay\"");
    reveal_strlit("\"StatusRequest\"");
    let esc = spec_escape(t);
    let line = spec_encode_message(IpcMessageV::TemplateSelected { text: t });
    let pre = TEMPLATE_PREFIX@.len() as int;
    assert(line[0] == '{');
    assert(line != spec_encode_message(IpcMessageV::ShiftShiftDetected));
    assert(line != spec_encode_message(IpcMessageV::HideOverlay));
    assert(line != spec_encode_message(IpcMessageV::ShowOverlay));
    assert(line != spec_encode_message(IpcMessageV::ShutdownOverlay));
    assert(line != spec_encode_message(IpcMessageV::UpdateConfig));
    assert(line != spec_encode_message(IpcMessageV::StartDaemon));
    assert(line != spec_encode_message(IpcMessageV::StopDaemon));
    assert(line != spec_encode_message(IpcMessageV::StartOverlay));
    assert(line != spec_encode_message(IpcMessageV::StopOverlay));
    assert(line != spec_encode_message(IpcMessageV::StatusRequest));
    assert(line.subrange(0, pre) =~= TEMPLATE_PREFIX@);
    assert(line.subrange(line.len() - PAYLOAD_SUFFIX@.len(), line.len() as int)
        =~= PAYLOAD_SUFFIX@);
    assert(spec_is_framed(line, TEMPLATE_PREFIX@));
    assert(spec_frame_payload(line, TEMPLATE_PREFIX@) =~= esc);
    lemma_escape_round_trip(t);
}

/// A configuration snapshot on the wire decodes to the reparse of its
/// serialized text: the frame and the escaping are faithful, and what
/// comes back is whatever the configuration syntax round trip gives —
/// which is lossy only for descriptions and categories.
pub proof fn lemma_config_frame_round_trip(c: ConfigV)
    ensures
        spec_decode_message(spec_encode_message(IpcMessageV::ConfigReloaded { config: c }))
            == (match spec_parse_entries(spec_serialize_config(c), 0) {
            Ok(c2) => Some(IpcMessageV::ConfigReloaded { config: c2 }),
            Err(_) => None::<IpcMessageV>,
        }),
{
    reveal_strlit("{\"TemplateSelected\":{\"text\":\"");
    reveal_strlit("{\"ConfigReloaded\":{\"config\":\"");
    reveal_strlit("\"}}");
    reveal_strlit("\"ShiftShiftDetected\"");
    reveal_strlit("\"HideOverlay\"");
    reveal_strlit("\"ShowOverlay\"");
    reveal_strlit("\"ShutdownOverlay\"");
    reveal_strlit("\"UpdateConfig\"");
    reveal_strlit("\"StartDaemon\"");
    reveal_strlit("\"StopDaemon\"");
    reveal_strlit("\"StartOverlay\"");
    reveal_strlit("\"StopOverlay\"");
    reveal_strlit("\"StatusRequest\"");
    let text = spec_serialize_config(c);
    let esc = spec_escape(text);
    let line = spec_encode_message(IpcMessageV::ConfigReloaded { config: c });
    let pre = CONFIG_PREFIX@.len() as int;
    assert(line[0] == '{');
    assert(line[2] == 'C');
    assert(line != spec_encode_message(IpcMessageV::ShiftShiftDetected));
    assert(line != spec_encode_message(IpcMessageV::HideOverlay));
    assert(line != spec_encode_message(IpcMessageV::ShowOverlay));
    assert(line != spec_encode_message(IpcMessageV::ShutdownOverlay));
    assert(line != spec_encode_message(IpcMessageV::UpdateConfig));
    assert(line != spec_encode_message(IpcMessageV::StartDaemon));
    assert(line != spec_encode_message(IpcMessageV::StopDaemon));
    assert(line != spec_encode_message(IpcMessageV::StartOverlay));
    assert(line != spec_encode_message(IpcMessageV::StopOverlay));
    assert(line != spec_encode_message(IpcMessageV::StatusRequest));
    assert(!spec_is_framed(line, TEMPLATE_PREFIX@)) by {
        if spec_is_framed(line, TEMPLATE_PREFIX@) {
            assert(line.subrange(0, TEMPLATE_PREFIX@.len() as int)[2] == line[2]);
        }
    }
    assert(line.subrange(0, pre) =~= CONFIG_PREFIX@);
    assert(line.subrange(line.len() - PAYLOAD_SUFFIX@.len(), line.len() as int)
        =~= PAYLOAD_SUFFIX@);
    assert(spec_is_framed(line, CONFIG_PREFIX@));
    assert(spec_frame_payload(line, CONFIG_PREFIX@) =~= esc);
    lemma_escape_round_trip(text);
}

/// A payload-free message survives the wire: encoding it and reading the
/// line back yields exactly the message that was sent.
pub proof fn lemma_unit_round_trip(m: IpcMessageV)
    requires
        m matches IpcMessageV::ShiftShiftDetected || m matches IpcMessageV::HideOverlay
            || m matches IpcMessageV::ShowOverlay || m matches IpcMessageV::ShutdownOverlay
            || m matches IpcMessageV::UpdateConfig || m matches IpcMessageV::StartDaemon
            || m matches IpcMessageV::StopDaemon || m matches IpcMessageV::StartOverlay
            || m matches IpcMessageV::StopOverlay || m matches IpcMessageV::StatusRequest,
    ensures
        spec_decode_message(spec_encode_message(m)) == Some(m),
{
    reveal_strlit("\"ShiftShiftDetected\"");
    reveal_strlit("\"HideOverlay\"");
    reveal_strlit("\"ShowOverlay\"");
    reveal_strlit("\"ShutdownOverlay\"");
    reveal_strlit("\"UpdateConfig\"");
    reveal_strlit("\"StartDaemon\"");
    reveal_strlit("\"StopDaemon\"");
    reveal_strlit("\"StartOverlay\"");
    reveal_strlit("\"StopOverlay\"");
    reveal_strlit("\"StatusRequest\"");
    reveal_strlit("{\"TemplateSelected\":{\"text\":\"");
    reveal_strlit("{\"ConfigReloaded\":{\"config\":\"");
    reveal_strlit("\"}}");
    reveal_strlit("{\"StatusResponse\":{\"daemon_running\":");
    reveal_strlit(",\"overlay_running\":");
    reveal_strlit(",\"autostart_enabled\":");
    reveal_strlit("}}");
    reveal_strlit("true");
    reveal_strlit("false");
    match m {
        IpcMessageV::ShowOverlay => {
            assert("\"ShowOverlay\""@ != "\"HideOverlay\""@) by {
                assert("\"ShowOverlay\""@[1] != "\"HideOverlay\""@[1]);
            }
        },
        IpcMessageV::StartDaemon => {
            assert("\"StartDaemon\""@ != "\"HideOverlay\""@) by {
                assert("\"StartDaemon\""@[1] != "\"HideOverlay\""@[1]);
            }
            assert("\"StartDaemon\""@ != "\"ShowOverlay\""@) by {
                assert("\"StartDaemon\""@[2] != "\"ShowOverlay\""@[2]);
            }
        },
        IpcMessageV::StartOverlay => {
            assert("\"StartOverlay\""@ != "\"UpdateConfig\""@) by {
                assert("\"StartOverlay\""@[1] != "\"UpdateConfig\""@[1]);
            }
        },
        IpcMessageV::StopOverlay => {
            assert("\"StopOverlay\""@ != "\"HideOverlay\""@) by {
                assert("\"StopOverlay\""@[1] != "\"HideOverlay\""@[1]);
            }
            assert("\"StopOverlay\""@ != "\"ShowOverlay\""@) by {
                assert("\"StopOverlay\""@[2] != "\"ShowOverlay\""@[2]);
            }
            assert("\"StopOverlay\""@ != "\"StartDaemon\""@) by {
                assert("\"StopOverlay\""@[3] != "\"StartDaemon\""@[3]);
            }
        },
        _ => {},
    }
}

/// A status response survives the wire: encoding it and reading the line
/// back yields exactly the flags that were sent.
pub proof fn lemma_status_round_trip(d: bool, o: bool, a: bool)
    ensures
        spec_decode_message(spec_encode_message(spec_status(d, o, a))) == Some(
            spec_status(d, o, a),
        ),
{
    reveal_strlit("\"ShiftShiftDetected\"");
    reveal_strlit("\"HideOverlay\"");
    reveal_strlit("\"ShowOverlay\"");
    reveal_strlit("\"ShutdownOverlay\"");
    reveal_strlit("\"UpdateConfig\"");
    reveal_strlit("\"StartDaemon\"");
    reveal_strlit("\"StopDaemon\"");
    reveal_strlit("\"StartOverlay\"");
    reveal_strlit("\"StopOverlay\"");
    reveal_strlit("\"StatusRequest\"");
    reveal_strlit("{\"TemplateSelected\":{\"text\":\"");
    reveal_strlit("{\"ConfigReloaded\":{\"config\":\"");
    reveal_strlit("\"}}");
    reveal_strlit("{\"StatusResponse\":{\"daemon_running\":");
    reveal_strlit(",\"overlay_running\":");
    reveal_strlit(",\"autostart_enabled\":");
    reveal_strlit("}}");
    reveal_strlit("true");
    reveal_strlit("false");
    let line = spec_encode_message(spec_status(d, o, a));
    assert(line[0] == '{');
    assert(line[2] == 'S');
    assert(!spec_is_framed(line, TEMPLATE_PREFIX@)) by {
        if spec_is_framed(line, TEMPLATE_PREFIX@) {
            assert(line.subrange(0, TEMPLATE_PREFIX@.len() as int)[2] == line[2]);
        }
    }
    assert(!spec_is_framed(line, CONFIG_PREFIX@)) by {
        if spec_is_framed(line, CONFIG_PREFIX@) {
            assert(line.subrange(0, CONFIG_PREFIX@.len() as int)[2] == line[2]);
        }
    }
    let p1 = "{\"StatusResponse\":{\"daemon_running\":"@.len() as int;
    assert(line[p1] == (if d {
        't'
    } else {
        'f'
    }));
    let p2 = p1 + spec_bool_json(d).len() + ",\"overlay_running\":"@.len();
    assert(line[p2] == (if o {
        't'
    } else {
        'f'
    }));
    let p3 = p2 + spec_bool_json(o).len() + ",\"autostart_enabled\":"@.len();
    assert(line[p3] == (if a {
        't'
    } else {
        'f'
    }));
}

/// Try one payload-free candidate.
fn matches_wire(line: &str, candidate: &IpcMessage) -> (r: bool)
    ensures
        r == (line@ == spec_encode_message(candidate@)),
{
    let cand = encode_ipc_message(candidate);
    str_eq_string(line, &cand)
}

/// Read a message back from one line; a line in none of the wire forms,
/// with a malformed escape, or with a configuration snapshot that does not
/// parse, is refused.
pub fn parse_ipc_message(line: &str) -> (r: Option<IpcMessage>)
    ensures
        match r {
            Some(m) => spec_decode_message(line@) == Some(m@),
            None => spec_decode_message(line@) is None,
        },
{
    if matches_wire(line, &IpcMessage::ShiftShiftDetected) {
        return Some(IpcMessage::ShiftShiftDetected);
    }
    if matches_wire(line, &IpcMessage::HideOverlay) {
        return Some(IpcMessage::HideOverlay);
    }
    if matches_wire(line, &IpcMessage::ShowOverlay) {
        return Some(IpcMessage::ShowOverlay);
    }
    if matches_wire(line, &IpcMessage::ShutdownOverlay) {
        return Some(IpcMessage::ShutdownOverlay);
    }
    if matches_wire(line, &IpcMessage::UpdateConfig) {
        return Some(IpcMessage::UpdateConfig);
    }
    if matches_wire(line, &IpcMessage::StartDaemon) {
        return Some(IpcMessage::StartDaemon);
    }
    if matches_wire(line, &IpcMessage::StopDaemon) {
        return Some(IpcMessage::StopDaemon);
    }
    if matches_wire(line, &IpcMessage::StartOverlay) {
        return Some(IpcMessage::StartOverlay);
    }
    if matches_wire(line, &IpcMessage::StopOverlay) {
        return Some(IpcMessage::StopOverlay);
    }
    if matches_wire(line, &IpcMessage::StatusRequest) {
        return Some(IpcMessage::StatusRequest);
    }
    let lv = str_to_chars(line);
    let n = lv.len();
    let pre_t = TEMPLATE_PREFIX.unicode_len();
    let pre_c = CONFIG_PREFIX.unicode_len();
    let suf = PAYLOAD_SUFFIX.unicode_len();
    if n >= suf && n - suf >= pre_t && starts_with_at(&lv, 0, TEMPLATE_PREFIX)
        && starts_with_at(&lv, n - suf, PAYLOAD_SUFFIX) {
        let mid = segment(&lv, pre_t, n - suf);
        match unescape_chars(&mid) {
            Some(t) => {
                return Some(IpcMessage::TemplateSelected { text: chars_to_string(&t) });
            },
            None => {
                return None;
            },
        }
    }
    if n >= suf && n - suf >= pre_c && starts_with_at(&lv, 0, CONFIG_PREFIX)
        && starts_with_at(&lv, n - suf, PAYLOAD_SUFFIX) {
        let mid = segment(&lv, pre_c, n - suf);
        match unescape_chars(&mid) {
            Some(txt) => {
                let text = chars_to_string(&txt);
                proof {
                    reveal_strlit("\"}}");
                    assert(text@.len() < usize::MAX);
                }
                match parse_textra_config(text.as_str()) {
                    Ok(config) => {
                        return Some(IpcMessage::ConfigReloaded { config });
                    },
                    Err(_) => {
                        return None;
                    },
                }
            },
            None => {
                return None;
            },
        }
    }
    if let Some(m) = try_status(line, true, true, true) {
        return Some(m);
    }
    if let Some(m) = try_status(line, true, true, false) {
        return Some(m);
    }
    if let Some(m) = try_status(line, true, false, true) {
        return Some(m);
    }
    if let Some(m) = try_status(line, true, false, false) {
        return Some(m);
    }
    if let Some(m) = try_status(line, false, true, true) {
        return Some(m);
    }
    if let Some(m) = try_status(line, false, true, false) {
        return Some(m);
    }
    if let Some(m) = try_status(line, false, false, true) {
        return Some(m);
    }
    if let Some(m) = try_status(line, false, false, false) {
        return Some(m);
    }
    None
}

/// Try one status-response candidate.
fn try_status(line: &str, d: bool, o: bool, a: bool) -> (r: Option<IpcMessage>)
    ensures
        match r {
            Some(m) => line@ == spec_encode_message(spec_status(d, o, a)) && m@ == spec_status(
                d,
                o,
                a,
            ),
            None => line@ != spec_encode_message(spec_status(d, o, a)),
        },
{
    let candidate = IpcMessage::StatusResponse {
        daemon_running: d,
        overlay_running: o,
        autostart_enabled: a,
    };
    if matches_wire(line, &candidate) {
        Some(candidate)
    } else {
        None
    }
}

} // verus!
