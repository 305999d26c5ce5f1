use vstd::prelude::*;
use vstd::string::*;

verus! {

#[verifier::external_type_specification]
#[verifier::external_body]
pub struct ExValue(serde_json::Value);

#[verifier::external_type_specification]
#[verifier::external_body]
pub struct ExJsonError(serde_json::Error);

/// What serde_json writes for a string value: the text between double quotes,
/// with quotes, backslashes and control characters escaped.
pub uninterp spec fn json_quoted(s: Seq<char>) -> Seq<char>;

/// What serde_json makes of one line of text: the structured value, or
/// nothing when the text is not valid JSON.
pub uninterp spec fn json_parsed(s: Seq<char>) -> Option<serde_json::Value>;

/// Relies on `serde_json::to_string` applied to a `str`: it writes into memory,
/// so it cannot fail, and its escape table turns every control character
/// (a line feed among them) into an escape sequence.
#[verifier::external_body]
fn quote(s: &str) -> (r: Result<String, serde_json::Error>)
    ensures
        r is Ok,
        r is Ok ==> r->Ok_0@ == json_quoted(s@),
        r is Ok ==> forall|i: int| 0 <= i < r->Ok_0@.len() ==> r->Ok_0@[i] != '\n',
{
    serde_json::to_string(s)
}

/// Relies on `serde_json::from_str` into a `serde_json::Value`: the outcome
/// depends on the text alone.
#[verifier::external_body]
fn parse_value(s: &str) -> (r: Result<serde_json::Value, serde_json::Error>)
    ensures
        r is Ok <==> json_parsed(s@) is Some,
        r is Ok ==> json_parsed(s@) == Some(r->Ok_0),
{
    serde_json::from_str::<serde_json::Value>(s)
}

/// A request to the worker: a method name and its parameters.
pub struct Command {
    pub method: String,
    pub url: String,
    pub mode: String,
    pub resolution: u32,
}

/// The decimal digit `d` (below ten) as a character.
pub open spec fn digit_char(d: nat) -> char {
    seq!['0', '1', '2', '3', '4', '5', '6', '7', '8', '9'][d as int]
}

/// The decimal notation of `n`, without sign or leading zeros.
pub open spec fn decimal(n: nat) -> Seq<char>
    decreases n,
{
    if n < 10 {
        seq![digit_char(n)]
    } else {
        decimal(n / 10).push(digit_char(n % 10))
    }
}

/// The wire text of a command: an object with the keys `method` and
/// `params`, the parameters keyed `mode`, `resolution` and `url`, keys in
/// sorted order as serde_json writes a map.
pub open spec fn command_text(method: Seq<char>, url: Seq<char>, mode: Seq<char>, resolution: nat) -> Seq<char> {
    "{\"method\":"@ + json_quoted(method) + ",\"params\":{\"mode\":"@ + json_quoted(mode)
        + ",\"resolution\":"@ + decimal(resolution) + ",\"url\":"@ + json_quoted(url) + "}}"@
}

/// The wire text of `c`.
pub open spec fn encoded(c: Command) -> Seq<char> {
    command_text(c.method@, c.url@, c.mode@, c.resolution as nat)
}

/// `s` holds no line break.
pub open spec fn single_line(s: Seq<char>) -> bool {
    forall|i: int| 0 <= i < s.len() ==> s[i] != '\n'
}

/// The error of a line that is not valid structured data; it keeps the line.
pub struct DecodeError {
    pub line: String,
}

impl Command {
    /// The command that asks the worker to download `url`.
    pub fn start_download(url: String, mode: String, resolution: u32) -> (r: Command)
        ensures
            r.method@ == "start_download"@,
            r.url == url,
            r.mode == mode,
            r.resolution == resolution,
    {
        Command { method: String::from_str("start_download"), url, mode, resolution }
    }
}

proof fn lemma_digit_char_not_newline(d: nat)
    requires
        d < 10,
    ensures
        digit_char(d) != '\n',
{
}

proof fn lemma_decimal_single_line(n: nat)
    ensures
        single_line(decimal(n)),
    decreases n,
{
    if n < 10 {
        lemma_digit_char_not_newline(n);
    } else {
        lemma_decimal_single_line(n / 10);
        lemma_digit_char_not_newline(n % 10);
    }
}

/// The one-character string for the digit `d`.
fn digit_str(d: u32) -> (r: &'static str)
    requires
        d < 10,
    ensures
        r@ == seq![digit_char(d as nat)],
{
    proof {
        reveal_strlit("0");
        reveal_strlit("1");
        reveal_strlit("2");
        reveal_strlit("3");
        reveal_strlit("4");
        reveal_strlit("5");
        reveal_strlit("6");
        reveal_strlit("7");
        reveal_strlit("8");
        reveal_strlit("9");
    }
    match d {
        0 => "0",
        1 => "1",
        2 => "2",
        3 => "3",
        4 => "4",
        5 => "5",
        6 => "6",
        7 => "7",
        8 => "8",
        _ => "9",
    }
}

/// Appends the decimal notation of `n` to `out`.
fn append_decimal(out: &mut String, n: u32)
    ensures
        final(out)@ == old(out)@ + decimal(n as nat),
    decreases n,
{
    if n >= 10 {
        append_decimal(out, n / 10);
    }
    out.append(digit_str(n % 10));
    assert(out@ =~= old(out)@ + decimal(n as nat));
}

/// Serialises `c` into its one-line wire text.
pub fn encode(c: &Command) -> (r: String)
    ensures
        r@ == encoded(*c),
        single_line(r@),
{
    let method = quote(c.method.as_str()).unwrap();
    let mode = quote(c.mode.as_str()).unwrap();
    let url = quote(c.url.as_str()).unwrap();
    let mut out = String::from_str("{\"method\":");
    out.append(method.as_str());
    out.append(",\"params\":{\"mode\":");
    out.append(mode.as_str());
    out.append(",\"resolution\":");
    append_decimal(&mut out, c.resolution);
    out.append(",\"url\":");
    out.append(url.as_str());
    out.append("}}");
    proof {
        reveal_strlit("{\"method\":");
        reveal_strlit(",\"params\":{\"mode\":");
        reveal_strlit(",\"resolution\":");
        reveal_strlit(",\"url\":");
        reveal_strlit("}}");
        lemma_decimal_single_line(c.resolution as nat);
        assert(out@ =~= encoded(*c));
    }
    out
}

/// The wire text of `c` followed by the line break that ends it.
pub fn command_line(c: &Command) -> (r: String)
    ensures
        r@ == encoded(*c).push('\n'),
{
    let mut out = encode(c);
    out.append("\n");
    proof {
        reveal_strlit("\n");
    }
    assert(out@ =~= encoded(*c).push('\n'));
    out
}

/// Parses one line of worker output as a structured message.
pub fn decode(line: &str) -> (r: Result<serde_json::Value, DecodeError>)
    ensures
        r is Ok <==> json_parsed(line@) is Some,
        r is Ok ==> json_parsed(line@) == Some(r->Ok_0),
        r is Err ==> r->Err_0.line@ == line@,
{
    match parse_value(line) {
        Ok(v) => Ok(v),
        Err(_) => Err(DecodeError { line: line.to_owned() }),
    }
}

} // verus!
