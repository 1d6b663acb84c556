use vstd::prelude::*;

use vstd::utf8::{decode_utf8, encode_utf8, encode_utf8_decode_utf8};

use crate::text::{concat_str, push_str, string_of};

verus! {

/// Where and as whom to connect.
#[derive(Clone, Debug)]
pub struct ConnectInfo {
    pub server: String,
    pub port: u16,
    pub http_port: u16,
    pub username: String,
    pub room: String,
}

impl Default for ConnectInfo {
    /// The local server on port 8080, which serves HTTP and WebSocket on the
    /// same port; no user name and no room.
    fn default() -> (r: Self)
        ensures
            r.server@ == "127.0.0.1"@,
            r.port == 8080,
            r.http_port == 8080,
            r.username@ == Seq::<char>::empty(),
            r.room@ == Seq::<char>::empty(),
    {
        ConnectInfo {
            server: "127.0.0.1".to_owned(),
            port: 8080,
            http_port: 8080,
            username: String::new(),
            room: String::new(),
        }
    }
}

/// A file registered in a room.
#[derive(Clone, Debug)]
pub struct FileInfo {
    pub id: u32,
    pub name: String,
    pub size: u64,
    pub uploaded: bool,
    pub owner: Option<String>,
    pub status: String,
    pub annotated_by: Option<String>,
}

/// The annotation of one file.
#[derive(Clone, Debug)]
pub struct LabelData {
    pub is_check: bool,
    pub lab: String,
    pub lab_without_tone: String,
    pub raw_text: String,
}

impl Default for LabelData {
    /// An unchecked, empty annotation.
    fn default() -> (r: Self)
        ensures
            !r.is_check,
            r.lab@ == Seq::<char>::empty(),
            r.lab_without_tone@ == Seq::<char>::empty(),
            r.raw_text@ == Seq::<char>::empty(),
    {
        LabelData {
            is_check: false,
            lab: String::new(),
            lab_without_tone: String::new(),
            raw_text: String::new(),
        }
    }
}

/// Messages from this client to the room.
#[derive(Clone, Debug)]
pub enum ClientMsg {
    Claim { file_id: u32 },
    Release { file_id: u32 },
    Annotate { file_id: u32, data: LabelData },
    /// Ask the room to make this file's audio available; the owning client
    /// will be asked to upload it on demand.
    RequestFile { file_id: u32 },
}

/// Messages from the room to this client.
#[derive(Clone, Debug)]
pub enum ServerMsg {
    Presence { user: String, file_id: u32 },
    Release { user: String, file_id: u32 },
    Annotated { user: String, file_id: u32, data: LabelData },
    Progress { done: u32, total: u32 },
    /// Another member asked for a file this client owns: upload it now.
    FileRequested { file_id: u32 },
    /// A file's bytes have been uploaded to the server.
    FileUploaded { file_id: u32 },
    /// The requested file is already on the server: download it.
    FileReady { file_id: u32 },
    /// The file's owner is not connected, so it cannot be served right now.
    FileUnavailable { file_id: u32 },
}

/// What the connection reports to the user interface.
#[derive(Clone, Debug)]
pub enum NetEvent {
    Connected,
    Disconnected(String),
    Presence { user: String, file_id: u32 },
    Released { file_id: u32 },
    Annotated { file_id: u32, data: LabelData },
    Progress { done: u32, total: u32 },
    FileRequested { file_id: u32 },
    FileUploaded { file_id: u32 },
    FileReady { file_id: u32 },
    FileUnavailable { file_id: u32 },
    Error(String),
}

/// The event that a server message is reported as: the same content, without
/// the acting user for releases and annotations.
pub open spec fn server_event(msg: ServerMsg) -> NetEvent {
    match msg {
        ServerMsg::Presence { user, file_id } => NetEvent::Presence { user, file_id },
        ServerMsg::Release { user: _, file_id } => NetEvent::Released { file_id },
        ServerMsg::Annotated { user: _, file_id, data } => NetEvent::Annotated { file_id, data },
        ServerMsg::Progress { done, total } => NetEvent::Progress { done, total },
        ServerMsg::FileRequested { file_id } => NetEvent::FileRequested { file_id },
        ServerMsg::FileUploaded { file_id } => NetEvent::FileUploaded { file_id },
        ServerMsg::FileReady { file_id } => NetEvent::FileReady { file_id },
        ServerMsg::FileUnavailable { file_id } => NetEvent::FileUnavailable { file_id },
    }
}

/// The file a server message is about, if it is about one.
pub open spec fn message_file(msg: ServerMsg) -> Option<u32> {
    match msg {
        ServerMsg::Presence { file_id, .. } => Some(file_id),
        ServerMsg::Release { file_id, .. } => Some(file_id),
        ServerMsg::Annotated { file_id, .. } => Some(file_id),
        ServerMsg::Progress { .. } => None,
        ServerMsg::FileRequested { file_id } => Some(file_id),
        ServerMsg::FileUploaded { file_id } => Some(file_id),
        ServerMsg::FileReady { file_id } => Some(file_id),
        ServerMsg::FileUnavailable { file_id } => Some(file_id),
    }
}

/// The file an event is about, if it is about one.
pub open spec fn event_file(e: NetEvent) -> Option<u32> {
    match e {
        NetEvent::Presence { file_id, .. } => Some(file_id),
        NetEvent::Released { file_id } => Some(file_id),
        NetEvent::Annotated { file_id, .. } => Some(file_id),
        NetEvent::FileRequested { file_id } => Some(file_id),
        NetEvent::FileUploaded { file_id } => Some(file_id),
        NetEvent::FileReady { file_id } => Some(file_id),
        NetEvent::FileUnavailable { file_id } => Some(file_id),
        _ => None,
    }
}

/// Each server message is reported as the event of the same kind with the
/// same content (releases and annotations without the acting user), so the
/// file an event is about is the file the message was about.
pub proof fn law_server_event_keeps_kind(msg: ServerMsg)
    ensures
        event_file(server_event(msg)) == message_file(msg),
        msg matches ServerMsg::Presence { user, file_id } ==> server_event(msg)
            == (NetEvent::Presence { user, file_id }),
        msg matches ServerMsg::Release { file_id, .. } ==> server_event(msg) == (NetEvent::Released {
            file_id,
        }),
        msg matches ServerMsg::Annotated { file_id, data, .. } ==> server_event(msg)
            == (NetEvent::Annotated { file_id, data }),
        msg matches ServerMsg::Progress { done, total } ==> server_event(msg) == (NetEvent::Progress {
            done,
            total,
        }),
        msg matches ServerMsg::FileRequested { file_id } ==> server_event(msg)
            == (NetEvent::FileRequested { file_id }),
        msg matches ServerMsg::FileUploaded { file_id } ==> server_event(msg)
            == (NetEvent::FileUploaded { file_id }),
        msg matches ServerMsg::FileReady { file_id } ==> server_event(msg) == (NetEvent::FileReady {
            file_id,
        }),
        msg matches ServerMsg::FileUnavailable { file_id } ==> server_event(msg)
            == (NetEvent::FileUnavailable { file_id }),
{
}

/// The event that a server message is reported as.
pub fn event_for(msg: ServerMsg) -> (e: NetEvent)
    ensures
        e == server_event(msg),
{
    match msg {
        ServerMsg::Presence { user, file_id } => NetEvent::Presence { user, file_id },
        ServerMsg::Release { user: _, file_id } => NetEvent::Released { file_id },
        ServerMsg::Annotated { user: _, file_id, data } => NetEvent::Annotated { file_id, data },
        ServerMsg::Progress { done, total } => NetEvent::Progress { done, total },
        ServerMsg::FileRequested { file_id } => NetEvent::FileRequested { file_id },
        ServerMsg::FileUploaded { file_id } => NetEvent::FileUploaded { file_id },
        ServerMsg::FileReady { file_id } => NetEvent::FileReady { file_id },
        ServerMsg::FileUnavailable { file_id } => NetEvent::FileUnavailable { file_id },
    }
}

/// The decimal digit for `d`.
pub open spec fn digit_char(d: nat) -> char {
    if d == 0 { '0' }
    else if d == 1 { '1' }
    else if d == 2 { '2' }
    else if d == 3 { '3' }
    else if d == 4 { '4' }
    else if d == 5 { '5' }
    else if d == 6 { '6' }
    else if d == 7 { '7' }
    else if d == 8 { '8' }
    else { '9' }
}

/// `n` written in decimal, without leading zeros.
pub open spec fn decimal(n: nat) -> Seq<char>
    decreases n,
{
    if n < 10 {
        seq![digit_char(n)]
    } else {
        decimal(n / 10).push(digit_char(n % 10))
    }
}

fn digit_of(d: u64) -> (c: char)
    requires
        d < 10,
    ensures
        c == digit_char(d as nat),
{
    if d == 0 { '0' }
    else if d == 1 { '1' }
    else if d == 2 { '2' }
    else if d == 3 { '3' }
    else if d == 4 { '4' }
    else if d == 5 { '5' }
    else if d == 6 { '6' }
    else if d == 7 { '7' }
    else if d == 8 { '8' }
    else { '9' }
}

/// Appends `n` in decimal to `out`.
pub fn push_decimal(out: &mut Vec<char>, n: u64)
    ensures
        final(out)@ == old(out)@ + decimal(n as nat),
    decreases n,
{
    if n >= 10 {
        push_decimal(out, n / 10);
    }
    out.push(digit_of(n % 10));
    assert(n >= 10 ==> decimal(n as nat) == decimal((n / 10) as nat).push(digit_char((n % 10) as nat)));
}

/// Bytes that stand for themselves in a URL: ASCII letters, digits and `-_.~`.
pub open spec fn unreserved(b: u8) -> bool {
    ||| (0x41 <= b && b <= 0x5A)
    ||| (0x61 <= b && b <= 0x7A)
    ||| (0x30 <= b && b <= 0x39)
    ||| b == 0x2D
    ||| b == 0x5F
    ||| b == 0x2E
    ||| b == 0x7E
}

/// The upper-case hexadecimal digit for `d`.
pub open spec fn hex_char(d: nat) -> char {
    if d < 10 {
        digit_char(d)
    } else if d == 10 { 'A' }
    else if d == 11 { 'B' }
    else if d == 12 { 'C' }
    else if d == 13 { 'D' }
    else if d == 14 { 'E' }
    else { 'F' }
}

/// How one byte is written in a URL: itself if unreserved, else `%` and two
/// upper-case hex digits.
pub open spec fn escape_byte(b: u8) -> Seq<char> {
    if unreserved(b) {
        seq![b as char]
    } else {
        seq!['%', hex_char((b / 16) as nat), hex_char((b % 16) as nat)]
    }
}

/// `bytes` percent-encoded.
pub open spec fn url_encode(bytes: Seq<u8>) -> Seq<char>
    decreases bytes.len(),
{
    if bytes.len() == 0 {
        Seq::<char>::empty()
    } else {
        escape_byte(bytes[0]) + url_encode(bytes.drop_first())
    }
}

/// The percent-encoding of the UTF-8 bytes of `s`.
pub open spec fn url_encoded(s: Seq<char>) -> Seq<char> {
    url_encode(encode_utf8(s))
}

fn hex_of(d: u8) -> (c: char)
    requires
        d < 16,
    ensures
        c == hex_char(d as nat),
{
    if d < 10 {
        digit_of(d as u64)
    } else if d == 10 { 'A' }
    else if d == 11 { 'B' }
    else if d == 12 { 'C' }
    else if d == 13 { 'D' }
    else if d == 14 { 'E' }
    else { 'F' }
}

fn is_unreserved(b: u8) -> (r: bool)
    ensures
        r == unreserved(b),
{
    (0x41 <= b && b <= 0x5A) || (0x61 <= b && b <= 0x7A) || (0x30 <= b && b <= 0x39) || b == 0x2D
        || b == 0x5F || b == 0x2E || b == 0x7E
}

/// Appends the percent-encoding of the UTF-8 bytes of `s` to `out`.
fn push_urlencoded(out: &mut Vec<char>, s: &str)
    ensures
        final(out)@ == old(out)@ + url_encoded(s@),
{
    let bytes = s.as_bytes();
    let ghost start = out@;
    let mut i: usize = 0;
    assert(bytes@.skip(0) =~= bytes@);
    while i < bytes.len()
        invariant
            i <= bytes.len(),
            bytes@ == encode_utf8(s@),
            start + url_encode(bytes@) == out@ + url_encode(bytes@.skip(i as int)),
        decreases bytes.len() - i,
    {
        let b: u8 = bytes[i];
        assert(bytes@.skip(i as int).drop_first() =~= bytes@.skip(i + 1));
        if is_unreserved(b) {
            out.push(b as char);
        } else {
            out.push('%');
            out.push(hex_of(b / 16));
            out.push(hex_of(b % 16));
        }
        i += 1;
    }
    assert(bytes@.skip(bytes@.len() as int) =~= Seq::<u8>::empty());
    assert(out@ + Seq::<char>::empty() =~= out@);
}

/// The value of a decimal digit or upper-case hex digit.
pub open spec fn hex_value(c: char) -> nat {
    if c == '0' { 0 }
    else if c == '1' { 1 }
    else if c == '2' { 2 }
    else if c == '3' { 3 }
    else if c == '4' { 4 }
    else if c == '5' { 5 }
    else if c == '6' { 6 }
    else if c == '7' { 7 }
    else if c == '8' { 8 }
    else if c == '9' { 9 }
    else if c == 'A' { 10 }
    else if c == 'B' { 11 }
    else if c == 'C' { 12 }
    else if c == 'D' { 13 }
    else if c == 'E' { 14 }
    else { 15 }
}

/// The bytes that a percent-encoded text stands for.
pub open spec fn url_decode(s: Seq<char>) -> Seq<u8>
    decreases s.len(),
{
    if s.len() == 0 {
        Seq::<u8>::empty()
    } else if s[0] == '%' && s.len() >= 3 {
        seq![(hex_value(s[1]) * 16 + hex_value(s[2])) as u8] + url_decode(s.skip(3))
    } else {
        seq![s[0] as u8] + url_decode(s.skip(1))
    }
}

/// The numeric value of a sequence of decimal digits.
pub open spec fn decimal_value(s: Seq<char>) -> nat
    decreases s.len(),
{
    if s.len() == 0 {
        0
    } else {
        decimal_value(s.drop_last()) * 10 + hex_value(s.last())
    }
}

/// Characters that may stand in a URL query value as written.
pub open spec fn url_safe(c: char) -> bool {
    ||| ('A' <= c && c <= 'Z')
    ||| ('a' <= c && c <= 'z')
    ||| ('0' <= c && c <= '9')
    ||| c == '-'
    ||| c == '_'
    ||| c == '.'
    ||| c == '~'
    ||| c == '%'
}

proof fn lemma_hex_roundtrip(d: nat)
    requires
        d < 16,
    ensures
        hex_value(hex_char(d)) == d,
        url_safe(hex_char(d)),
        hex_upper(hex_char(d)),
        hex_char(d) != '%',
{
}

proof fn lemma_escape_byte(b: u8, rest: Seq<char>)
    ensures
        url_decode(escape_byte(b) + rest) == seq![b] + url_decode(rest),
        forall|i: int| 0 <= i < escape_byte(b).len() ==> url_safe(#[trigger] escape_byte(b)[i]),
{
    let e = escape_byte(b);
    if unreserved(b) {
        assert((b as char) as u8 == b);
        assert((e + rest).skip(1) =~= rest);
        assert(e + rest == seq![b as char] + rest);
        assert((e + rest)[0] == b as char);
        assert(b as char != '%');
    } else {
        lemma_hex_roundtrip((b / 16) as nat);
        lemma_hex_roundtrip((b % 16) as nat);
        assert((e + rest).skip(3) =~= rest);
        assert((e + rest)[0] == '%');
        assert((e + rest)[1] == hex_char((b / 16) as nat));
        assert((e + rest)[2] == hex_char((b % 16) as nat));
        assert(((b / 16) * 16 + b % 16) as u8 == b) by (nonlinear_arith);
    }
}

proof fn lemma_url_decode_encode(bytes: Seq<u8>)
    ensures
        url_decode(url_encode(bytes)) == bytes,
        forall|i: int| 0 <= i < url_encode(bytes).len() ==> url_safe(#[trigger] url_encode(bytes)[i]),
    decreases bytes.len(),
{
    if bytes.len() > 0 {
        lemma_url_decode_encode(bytes.drop_first());
        lemma_escape_byte(bytes[0], url_encode(bytes.drop_first()));
        assert(bytes =~= seq![bytes[0]] + bytes.drop_first());
        let e = escape_byte(bytes[0]);
        let r = url_encode(bytes.drop_first());
        assert forall|i: int| 0 <= i < (e + r).len() implies url_safe(#[trigger] (e + r)[i]) by {
            if i < e.len() {
                assert((e + r)[i] == e[i]);
            } else {
                assert((e + r)[i] == r[i - e.len()]);
            }
        }
    }
}

/// Percent-encoding loses nothing: decoding gives back the UTF-8 bytes of the
/// text, which give back the text; and it writes only URL-safe characters.
pub proof fn law_urlencode_reversible(s: Seq<char>)
    ensures
        url_decode(url_encoded(s)) == encode_utf8(s),
        decode_utf8(url_decode(url_encoded(s))) == s,
        forall|i: int| 0 <= i < url_encoded(s).len() ==> url_safe(#[trigger] url_encoded(s)[i]),
{
    lemma_url_decode_encode(encode_utf8(s));
    encode_utf8_decode_utf8(s);
}

/// An upper-case hexadecimal digit.
pub open spec fn hex_upper(c: char) -> bool {
    ('0' <= c && c <= '9') || ('A' <= c && c <= 'F')
}

/// Every `%` in `r` is followed by two upper-case hexadecimal digits.
pub open spec fn escapes_complete(r: Seq<char>) -> bool {
    forall|i: int|
        0 <= i < r.len() && #[trigger] r[i] == '%' ==> i + 2 < r.len() && hex_upper(r[i + 1])
            && hex_upper(r[i + 2])
}

proof fn lemma_url_encode_escapes(bytes: Seq<u8>)
    ensures
        escapes_complete(url_encode(bytes)),
    decreases bytes.len(),
{
    if bytes.len() > 0 {
        lemma_url_encode_escapes(bytes.drop_first());
        let b = bytes[0];
        let e = escape_byte(b);
        let rest = url_encode(bytes.drop_first());
        let r = e + rest;
        assert(url_encode(bytes) == r);
        if !unreserved(b) {
            lemma_hex_roundtrip((b / 16) as nat);
            lemma_hex_roundtrip((b % 16) as nat);
        }
        assert forall|i: int| 0 <= i < r.len() && #[trigger] r[i] == '%' implies i + 2 < r.len()
            && hex_upper(r[i + 1]) && hex_upper(r[i + 2]) by {
            if i < e.len() {
                assert(r[i] == e[i]);
                if unreserved(b) {
                    assert(b != 0x25);
                    assert((b as char) != '%');
                } else {
                    assert(i == 0);
                    assert(r[1] == hex_char((b / 16) as nat));
                    assert(r[2] == hex_char((b % 16) as nat));
                }
            } else {
                let j = i - e.len();
                assert(r[i] == rest[j]);
                assert(r[i + 1] == rest[j + 1]);
                assert(r[i + 2] == rest[j + 2]);
            }
        }
    }
}

/// Percent-encoded text is ASCII: each character is an unreserved one or `%`,
/// and every `%` is followed by two upper-case hexadecimal digits.
pub proof fn law_urlencode_escapes(s: Seq<char>)
    ensures
        forall|i: int| 0 <= i < url_encoded(s).len() ==> url_safe(#[trigger] url_encoded(s)[i]),
        escapes_complete(url_encoded(s)),
{
    law_urlencode_reversible(s);
    lemma_url_encode_escapes(encode_utf8(s));
}

/// Different user names (or room codes) never encode to the same query value.
pub proof fn law_urlencode_injective(a: Seq<char>, b: Seq<char>)
    requires
        url_encoded(a) == url_encoded(b),
    ensures
        a == b,
{
    law_urlencode_reversible(a);
    law_urlencode_reversible(b);
}

/// Decimal text reads back as the number it was written from.
pub proof fn law_decimal_value(n: nat)
    ensures
        decimal_value(decimal(n)) == n,
        decimal(n).len() > 0,
        decimal(n).len() == 1 <==> n < 10,
        decimal(n).len() > 1 ==> decimal(n)[0] != '0',
    decreases n,
{
    if n < 10 {
        assert(decimal(n).drop_last() =~= Seq::<char>::empty());
        assert(hex_value(digit_char(n)) == n);
        assert(decimal_value(decimal(n)) == decimal_value(Seq::<char>::empty()) * 10 + hex_value(digit_char(n)));
    } else {
        law_decimal_value(n / 10);
        let d = decimal(n / 10).push(digit_char(n % 10));
        assert(d.drop_last() =~= decimal(n / 10));
        assert(hex_value(digit_char(n % 10)) == n % 10);
        assert((n / 10) * 10 + n % 10 == n) by (nonlinear_arith);
        assert(decimal(n) == d);
        assert(decimal_value(d) == decimal_value(decimal(n / 10)) * 10 + hex_value(digit_char(n % 10)));
        assert(d[0] == decimal(n / 10)[0]);
        assert(n / 10 >= 1);
        if decimal(n / 10).len() == 1 {
            assert(n / 10 < 10);
            assert(decimal(n / 10) == seq![digit_char(n / 10)]);
        }
    }
}

/// Percent-encodes the UTF-8 bytes of `s` for a URL query.
pub fn urlencode(s: &str) -> (r: String)
    ensures
        r@ == url_encoded(s@),
{
    let mut out: Vec<char> = Vec::new();
    push_urlencoded(&mut out, s);
    string_of(&out)
}

/// The WebSocket URL of a room: `ws://server:port/ws?user=..&room=..`, with
/// the user name and room code percent-encoded.
pub open spec fn ws_url_of(info: ConnectInfo) -> Seq<char> {
    "ws://"@ + info.server@ + ":"@ + decimal(info.port as nat) + "/ws?user="@ + url_encoded(
        info.username@,
    ) + "&room="@ + url_encoded(info.room@)
}

/// The WebSocket URL for joining the room in `info`.
pub fn ws_url(info: &ConnectInfo) -> (r: String)
    ensures
        r@ == ws_url_of(*info),
{
    let mut out: Vec<char> = Vec::new();
    push_str(&mut out, "ws://");
    push_str(&mut out, info.server.as_str());
    push_str(&mut out, ":");
    push_decimal(&mut out, info.port as u64);
    push_str(&mut out, "/ws?user=");
    push_urlencoded(&mut out, info.username.as_str());
    push_str(&mut out, "&room=");
    push_urlencoded(&mut out, info.room.as_str());
    string_of(&out)
}

/// The base of the HTTP API: `http://server:port`.
pub open spec fn http_base(server: Seq<char>, port: u16) -> Seq<char> {
    "http://"@ + server + ":"@ + decimal(port as nat)
}

fn push_http_base(out: &mut Vec<char>, server: &str, port: u16)
    ensures
        final(out)@ == old(out)@ + http_base(server@, port),
{
    push_str(out, "http://");
    push_str(out, server);
    push_str(out, ":");
    push_decimal(out, port as u64);
    assert(final(out)@ =~= old(out)@ + http_base(server@, port));
}

/// The URL that creates a room.
pub fn rooms_url(server: &str, http_port: u16) -> (r: String)
    ensures
        r@ == http_base(server@, http_port) + "/api/rooms"@,
{
    let mut out: Vec<char> = Vec::new();
    push_http_base(&mut out, server, http_port);
    push_str(&mut out, "/api/rooms");
    string_of(&out)
}

/// The URL of a room's file list (the room code is not escaped).
pub fn room_files_url(server: &str, http_port: u16, room: &str) -> (r: String)
    ensures
        r@ == http_base(server@, http_port) + "/api/rooms/"@ + room@ + "/files"@,
{
    let mut out: Vec<char> = Vec::new();
    push_http_base(&mut out, server, http_port);
    push_str(&mut out, "/api/rooms/");
    push_str(&mut out, room);
    push_str(&mut out, "/files");
    string_of(&out)
}

/// The URL that a file's audio is uploaded to.
pub fn upload_audio_url(server: &str, http_port: u16, room: &str, file_id: u32) -> (r: String)
    ensures
        r@ == http_base(server@, http_port) + "/api/rooms/"@ + room@ + "/files/"@ + decimal(
            file_id as nat,
        ) + "/audio"@,
{
    let mut out: Vec<char> = Vec::new();
    push_http_base(&mut out, server, http_port);
    push_str(&mut out, "/api/rooms/");
    push_str(&mut out, room);
    push_str(&mut out, "/files/");
    push_decimal(&mut out, file_id as u64);
    push_str(&mut out, "/audio");
    string_of(&out)
}

/// The URL that a file's audio is downloaded from.
pub fn audio_url(server: &str, http_port: u16, file_id: u32) -> (r: String)
    ensures
        r@ == http_base(server@, http_port) + "/api/files/"@ + decimal(file_id as nat)
            + "/audio"@,
{
    let mut out: Vec<char> = Vec::new();
    push_http_base(&mut out, server, http_port);
    push_str(&mut out, "/api/files/");
    push_decimal(&mut out, file_id as u64);
    push_str(&mut out, "/audio");
    string_of(&out)
}

/// The URL that a file's `.lab` or `.json` sidecar is downloaded from.
pub fn sidecar_url(server: &str, http_port: u16, file_id: u32, ext: &str) -> (r: String)
    ensures
        r@ == http_base(server@, http_port) + "/api/files/"@ + decimal(file_id as nat) + "/"@
            + ext@,
{
    let mut out: Vec<char> = Vec::new();
    push_http_base(&mut out, server, http_port);
    push_str(&mut out, "/api/files/");
    push_decimal(&mut out, file_id as u64);
    push_str(&mut out, "/");
    push_str(&mut out, ext);
    string_of(&out)
}

/// Whether an HTTP status code reports success (200 to 299).
pub open spec fn is_success(code: u16) -> bool {
    200 <= code && code <= 299
}

/// The HTTP exchanges whose failure status is reported as an error.
#[derive(Clone, Copy, Debug, PartialEq, Eq, Structural)]
pub enum Transfer {
    ListFiles,
    UploadAudio,
    DownloadAudio,
}

/// What a failed exchange is called in its error message.
pub open spec fn failure_text(t: Transfer) -> Seq<char> {
    match t {
        Transfer::ListFiles => "list files failed"@,
        Transfer::UploadAudio => "upload failed"@,
        Transfer::DownloadAudio => "download failed"@,
    }
}

/// Checks the status of an HTTP reply; `status` is the status as displayed
/// (such as `404 Not Found`).
pub fn check_status(t: Transfer, code: u16, status: &str) -> (r: Result<(), String>)
    ensures
        r is Ok <==> is_success(code),
        r matches Err(e) ==> e@ == failure_text(t) + ": "@ + status@,
{
    if 200 <= code && code <= 299 {
        Ok(())
    } else {
        let what: &str = match t {
            Transfer::ListFiles => "list files failed: ",
            Transfer::UploadAudio => "upload failed: ",
            Transfer::DownloadAudio => "download failed: ",
        };
        proof {
            reveal_strlit("list files failed: ");
            reveal_strlit("list files failed");
            reveal_strlit("upload failed: ");
            reveal_strlit("upload failed");
            reveal_strlit("download failed: ");
            reveal_strlit("download failed");
            reveal_strlit(": ");
        }
        assert(what@ =~= failure_text(t) + ": "@);
        Err(concat_str(what, status))
    }
}

/// The room code in the reply to a room creation: the reply's `id` field, if
/// it is a string.
pub fn room_code(id: Option<String>) -> (r: Result<String, String>)
    ensures
        match id {
            Some(code) => r == Ok::<String, String>(code),
            None => r matches Err(e) && e@ == "no room id"@,
        },
{
    match id {
        Some(code) => Ok(code),
        None => Err("no room id".to_owned()),
    }
}

/// The files of a registration reply, each already read from the reply (or
/// the message of the error that reading it gave): all of them in order, or
/// the first error.
pub fn registered_files(items: Vec<Result<FileInfo, String>>) -> (r: Result<Vec<FileInfo>, String>)
    ensures
        match r {
            Ok(files) => files@.len() == items@.len() && forall|i: int|
                0 <= i < items@.len() ==> items@[i] == Ok::<FileInfo, String>(#[trigger] files@[i]),
            Err(e) => exists|k: int|
                0 <= k < items@.len() && items@[k] == Err::<FileInfo, String>(e) && forall|j: int|
                    0 <= j < k ==> #[trigger] items@[j] is Ok,
        },
{
    let ghost all = items@;
    let mut files: Vec<FileInfo> = Vec::new();
    for item in it: items
        invariant
            it.seq() == all,
            files@.len() == it.index(),
            forall|i: int| 0 <= i < it.index() ==> all[i] == Ok::<FileInfo, String>(#[trigger] files@[i]),
    {
        match item {
            Ok(f) => {
                files.push(f);
            },
            Err(e) => {
                assert forall|j: int| 0 <= j < it.index() implies #[trigger] all[j] is Ok by {
                    assert(all[j] == Ok::<FileInfo, String>(files@[j]));
                }
                return Err(e);
            },
        }
    }
    Ok(files)
}

/// What a sidecar download does with the reply status: `Ok(false)` when the
/// server has no such sidecar (404), `Ok(true)` when the body is to be saved,
/// else the error.
pub fn sidecar_status(code: u16, status: &str) -> (r: Result<bool, String>)
    ensures
        code == 404 ==> r == Ok::<bool, String>(false),
        code != 404 && is_success(code) ==> r == Ok::<bool, String>(true),
        code != 404 && !is_success(code) ==> (r matches Err(e) && e@
            == "sidecar download failed: "@ + status@),
{
    if code == 404 {
        Ok(false)
    } else if !(200 <= code && code <= 299) {
        Err(concat_str("sidecar download failed: ", status))
    } else {
        Ok(true)
    }
}

/// The name an uploaded audio file is sent under: its own, or `audio.bin`.
pub fn upload_file_name(name: Option<String>) -> (r: String)
    ensures
        match name {
            Some(n) => r == n,
            None => r@ == "audio.bin"@,
        },
{
    match name {
        Some(n) => n,
        None => "audio.bin".to_owned(),
    }
}

/// The sidecar kinds that are sent along with an uploaded audio file, in order.
pub fn sidecar_extensions() -> (r: Vec<&'static str>)
    ensures
        r@.len() == 2,
        r@[0]@ == "lab"@,
        r@[1]@ == "json"@,
{
    let mut r: Vec<&'static str> = Vec::new();
    r.push("lab");
    r.push("json");
    r
}

/// The name of a sidecar file: the audio file's stem, a dot, and the kind.
pub fn sidecar_file_name(stem: &str, ext: &str) -> (r: String)
    ensures
        r@ == stem@ + "."@ + ext@,
{
    let mut out: Vec<char> = Vec::new();
    push_str(&mut out, stem);
    push_str(&mut out, ".");
    push_str(&mut out, ext);
    string_of(&out)
}

/// What the connection task observed.
pub enum LinkInput {
    /// The async runtime could not be built (with the error's text).
    RuntimeFailed(String),
    /// The WebSocket connection failed (with the error's text).
    ConnectFailed(String),
    /// The WebSocket connection did not complete in time.
    ConnectTimedOut,
    /// The WebSocket connection is open.
    Connected,
    /// No more messages can come from the client.
    QueueClosed,
    /// A client message was sent.
    Sent,
    /// Sending a client message failed.
    SendFailed,
    /// A text frame arrived: the server message it holds, or `None` when it
    /// holds none.
    Text(Option<ServerMsg>),
    /// A frame other than text arrived.
    OtherFrame,
    /// Reading from the connection failed (with the error's text).
    ReadFailed(String),
    /// The server closed the connection.
    Closed,
}

/// What the connection task does next: the event to report, if any, and
/// whether it stops.
pub struct LinkStep {
    pub event: Option<NetEvent>,
    pub stop: bool,
}

/// The decision `r` on the observation `input`: the event to report and
/// whether to stop.
pub open spec fn link_decision(input: LinkInput, r: LinkStep) -> bool {
    match input {
        LinkInput::RuntimeFailed(e) => r.stop && (r.event matches Some(NetEvent::Error(m))
            && m@ == "Runtime: "@ + e@),
        LinkInput::ConnectFailed(e) => r.stop && (r.event matches Some(NetEvent::Error(m))
            && m@ == "Connect: "@ + e@),
        LinkInput::ConnectTimedOut => r.stop && (r.event matches Some(NetEvent::Error(m))
            && m@ == "Connect: timed out"@),
        LinkInput::Connected => !r.stop && r.event matches Some(NetEvent::Connected),
        LinkInput::QueueClosed => r.stop && r.event is None,
        LinkInput::Sent => !r.stop && r.event is None,
        LinkInput::SendFailed => r.stop && r.event is None,
        LinkInput::Text(Some(msg)) => !r.stop && r.event == Some(server_event(msg)),
        LinkInput::Text(None) => !r.stop && r.event is None,
        LinkInput::OtherFrame => !r.stop && r.event is None,
        LinkInput::ReadFailed(e) => r.stop && (r.event matches Some(NetEvent::Disconnected(m))
            && m == e),
        LinkInput::Closed => r.stop && (r.event matches Some(NetEvent::Disconnected(m))
            && m@ == "Connection closed"@),
    }
}

/// The events reported by a run of decisions, in order.
pub open spec fn reported(steps: Seq<LinkStep>) -> Seq<NetEvent>
    decreases steps.len(),
{
    if steps.len() == 0 {
        Seq::<NetEvent>::empty()
    } else {
        reported(steps.drop_last()) + match steps.last().event {
            Some(e) => seq![e],
            None => Seq::<NetEvent>::empty(),
        }
    }
}

/// The events that a run of incoming frames stands for: one per text frame
/// that holds a server message.
pub open spec fn frame_events(frames: Seq<LinkInput>) -> Seq<NetEvent>
    decreases frames.len(),
{
    if frames.len() == 0 {
        Seq::<NetEvent>::empty()
    } else {
        frame_events(frames.drop_last()) + match frames.last() {
            LinkInput::Text(Some(m)) => seq![server_event(m)],
            _ => Seq::<NetEvent>::empty(),
        }
    }
}

/// An observation of a running session: an incoming frame, or a client
/// message that was sent.
pub open spec fn is_frame(i: LinkInput) -> bool {
    i is Text || i is OtherFrame || i is Sent
}

proof fn lemma_session_prefix(inputs: Seq<LinkInput>, steps: Seq<LinkStep>, k: int)
    requires
        inputs.len() == steps.len(),
        1 <= k < inputs.len(),
        forall|i: int| 0 <= i < inputs.len() ==> link_decision(#[trigger] inputs[i], steps[i]),
        inputs[0] is Connected,
        forall|i: int| 0 < i < k ==> is_frame(#[trigger] inputs[i]),
    ensures
        reported(steps.take(k)) == seq![NetEvent::Connected] + frame_events(inputs.subrange(1, k)),
        forall|i: int| 0 <= i < k ==> !(#[trigger] steps[i]).stop,
    decreases k,
{
    assert(link_decision(inputs[0], steps[0]));
    if k == 1 {
        assert(steps.take(1).drop_last() =~= Seq::<LinkStep>::empty());
        assert(steps.take(1).last() == steps[0]);
        assert(inputs.subrange(1, 1) =~= Seq::<LinkInput>::empty());
        assert(steps[0].event == Some(NetEvent::Connected));
        assert(reported(steps.take(1).drop_last()) == Seq::<NetEvent>::empty());
        assert(reported(steps.take(1)) =~= Seq::<NetEvent>::empty() + seq![NetEvent::Connected]);
        assert(reported(steps.take(1)) =~= seq![NetEvent::Connected]);
        assert(seq![NetEvent::Connected] + Seq::<NetEvent>::empty() =~= seq![NetEvent::Connected]);
    } else {
        lemma_session_prefix(inputs, steps, k - 1);
        assert(steps.take(k).drop_last() =~= steps.take(k - 1));
        assert(steps.take(k).last() == steps[k - 1]);
        assert(inputs.subrange(1, k).drop_last() =~= inputs.subrange(1, k - 1));
        assert(inputs.subrange(1, k).last() == inputs[k - 1]);
        assert(is_frame(inputs[k - 1]));
        assert(link_decision(inputs[k - 1], steps[k - 1]));
        let tail = match inputs[k - 1] {
            LinkInput::Text(Some(m)) => seq![server_event(m)],
            _ => Seq::<NetEvent>::empty(),
        };
        assert(seq![NetEvent::Connected] + frame_events(inputs.subrange(1, k - 1)) + tail
            =~= seq![NetEvent::Connected] + (frame_events(inputs.subrange(1, k - 1)) + tail));
    }
}

/// A session that connects, receives frames (and sends client messages in
/// between) and is then closed by the server reports `Connected`, then one
/// event per text frame holding a server message, in frame order, then
/// `Disconnected("Connection closed")`; it stops at the close and not before.
pub proof fn law_session_events(inputs: Seq<LinkInput>, steps: Seq<LinkStep>)
    requires
        inputs.len() == steps.len(),
        inputs.len() >= 2,
        forall|i: int| 0 <= i < inputs.len() ==> link_decision(#[trigger] inputs[i], steps[i]),
        inputs[0] is Connected,
        inputs.last() is Closed,
        forall|i: int| 0 < i < inputs.len() - 1 ==> is_frame(#[trigger] inputs[i]),
    ensures
        forall|i: int| 0 <= i < inputs.len() - 1 ==> !(#[trigger] steps[i]).stop,
        steps.last().stop,
        reported(steps).len() == frame_events(inputs.subrange(1, inputs.len() - 1)).len() + 2,
        reported(steps)[0] is Connected,
        reported(steps).subrange(1, reported(steps).len() - 1) == frame_events(
            inputs.subrange(1, inputs.len() - 1),
        ),
        reported(steps).last() matches NetEvent::Disconnected(m) && m@ == "Connection closed"@,
{
    let n = inputs.len() as int;
    lemma_session_prefix(inputs, steps, n - 1);
    assert(steps.take(n) =~= steps);
    assert(steps.drop_last() =~= steps.take(n - 1));
    assert(inputs[n - 1] == inputs.last());
    assert(link_decision(inputs[n - 1], steps[n - 1]));
    assert(steps.last() == steps[n - 1]);
    let f = frame_events(inputs.subrange(1, n - 1));
    let last_event = steps.last().event->Some_0;
    assert(reported(steps) =~= seq![NetEvent::Connected] + f + seq![last_event]);
    assert(reported(steps).subrange(1, reported(steps).len() - 1) =~= f);
}

/// The connection task's decision on what it observed.
pub fn link_step(input: LinkInput) -> (r: LinkStep)
    ensures
        link_decision(input, r),
{
    match input {
        LinkInput::RuntimeFailed(e) => LinkStep {
            event: Some(NetEvent::Error(concat_str("Runtime: ", e.as_str()))),
            stop: true,
        },
        LinkInput::ConnectFailed(e) => LinkStep {
            event: Some(NetEvent::Error(concat_str("Connect: ", e.as_str()))),
            stop: true,
        },
        LinkInput::ConnectTimedOut => LinkStep {
            event: Some(NetEvent::Error("Connect: timed out".to_owned())),
            stop: true,
        },
        LinkInput::Connected => LinkStep { event: Some(NetEvent::Connected), stop: false },
        LinkInput::QueueClosed => LinkStep { event: None, stop: true },
        LinkInput::Sent => LinkStep { event: None, stop: false },
        LinkInput::SendFailed => LinkStep { event: None, stop: true },
        LinkInput::Text(Some(msg)) => LinkStep { event: Some(event_for(msg)), stop: false },
        LinkInput::Text(None) => LinkStep { event: None, stop: false },
        LinkInput::OtherFrame => LinkStep { event: None, stop: false },
        LinkInput::ReadFailed(e) => LinkStep { event: Some(NetEvent::Disconnected(e)), stop: true },
        LinkInput::Closed => LinkStep {
            event: Some(NetEvent::Disconnected("Connection closed".to_owned())),
            stop: true,
        },
    }
}

} // verus!
