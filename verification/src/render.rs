//! What the demonstration prints, line by line. A host prints, pauses and measures; how long a
//! verifier took and what an audit event looks like in JSON are handed in as text.

use vstd::prelude::*;
use vstd::string::{StrSliceExecFns, StringExecFns};
use vstd::utf8::{decode_utf8, encode_utf8, is_char_boundary};

use crate::driver::{ResultView, ScenarioResult};
use crate::text::{decimal, decimal_string, opt_str_text, opt_text, texts};

verus! {

/// ANSI colors, disabled when the output is not a terminal (so piped output stays clean).
#[derive(Debug, Clone, Copy)]
pub struct Colors {
    pub bold: &'static str,
    pub dim: &'static str,
    pub red: &'static str,
    pub green: &'static str,
    pub reset: &'static str,
}

/// The view of [`Colors`].
#[verifier::ext_equal]
pub struct ColorsView {
    pub bold: Seq<char>,
    pub dim: Seq<char>,
    pub red: Seq<char>,
    pub green: Seq<char>,
    pub reset: Seq<char>,
}

impl View for Colors {
    type V = ColorsView;

    open spec fn view(&self) -> ColorsView {
        ColorsView {
            bold: self.bold@,
            dim: self.dim@,
            red: self.red@,
            green: self.green@,
            reset: self.reset@,
        }
    }
}

impl Colors {
    /// The colors for an output that is a terminal or is not.
    pub fn detect(is_terminal: bool) -> (res: Self)
        ensures
            res@ == if is_terminal {
                ColorsView {
                    bold: "\x1b[1m"@,
                    dim: "\x1b[2m"@,
                    red: "\x1b[31m"@,
                    green: "\x1b[32m"@,
                    reset: "\x1b[0m"@,
                }
            } else {
                ColorsView { bold: ""@, dim: ""@, red: ""@, green: ""@, reset: ""@ }
            },
    {
        if is_terminal {
            Colors {
                bold: "\x1b[1m",
                dim: "\x1b[2m",
                red: "\x1b[31m",
                green: "\x1b[32m",
                reset: "\x1b[0m",
            }
        } else {
            Colors { bold: "", dim: "", red: "", green: "", reset: "" }
        }
    }
}

/// Whether a text can be cut eight bytes from either end.
pub open spec fn abbreviable(h: Seq<char>) -> bool {
    let bytes = encode_utf8(h);
    bytes.len() > 20 ==> is_char_boundary(bytes, 8) && is_char_boundary(bytes, bytes.len() - 8)
}

/// A text of more than 20 bytes cut to eight bytes from either end.
pub open spec fn abbreviated(h: Seq<char>) -> Seq<char> {
    let bytes = encode_utf8(h);
    if bytes.len() <= 20 {
        h
    } else {
        decode_utf8(bytes.subrange(0, 8)) + "…"@ + decode_utf8(
            bytes.subrange(bytes.len() - 8, bytes.len() as int),
        )
    }
}

/// Abbreviate a long hex digest as `prefix…suffix` for terminal display.
pub fn short(h: &str) -> (res: String)
    requires
        abbreviable(h@),
    ensures
        res@ == abbreviated(h@),
{
    let n: usize = h.as_bytes().len();
    if n <= 20 {
        h.to_owned()
    } else {
        let head = h.split_at(8).0;
        let tail = h.split_at(n - 8).1;
        proof {
            vstd::utf8::encode_utf8_decode_utf8(head@);
            vstd::utf8::encode_utf8_decode_utf8(tail@);
        }
        let mut res = head.to_owned();
        res.append("…");
        res.append(tail);
        res
    }
}

/// As many spaces.
pub open spec fn spaces(n: nat) -> Seq<char> {
    Seq::new(n, |i: int| ' ')
}

/// A text padded with spaces on the right to a width in characters.
pub open spec fn padded(s: Seq<char>, width: nat) -> Seq<char> {
    s + spaces(
        if s.len() < width {
            (width - s.len()) as nat
        } else {
            0
        },
    )
}

/// Pad a text with spaces on the right to a width in characters.
fn pad(s: &str, width: usize) -> (res: String)
    ensures
        res@ == padded(s@, width as nat),
{
    let n: usize = s.unicode_len();
    let mut res = s.to_owned();
    let mut i: usize = n;
    proof {
        reveal_strlit(" ");
    }
    while i < width
        invariant
            n == s@.len(),
            n <= i,
            i <= width || i == n,
            res@ =~= s@ + spaces((i - n) as nat),
            " "@ =~= seq![' '],
        decreases width - i,
    {
        res.append(" ");
        i += 1;
    }
    res
}

/// Whether every scenario came out as expected.
pub open spec fn all_as_expected(results: Seq<ResultView>) -> bool {
    forall|i: int| 0 <= i < results.len() ==> (#[trigger] results[i]).as_expected()
}

/// The views of some results.
pub open spec fn result_views(results: Seq<ScenarioResult>) -> Seq<ResultView> {
    Seq::new(results.len(), |i: int| results[i]@)
}

/// The closing line of a demonstration, or the error that it ends with.
pub fn summary(results: &[ScenarioResult]) -> (res: Result<String, String>)
    ensures
        match res {
            Ok(line) => all_as_expected(result_views(results@)) && line@ == "  "@ + decimal(
                results@.len(),
            ) + " scenarios, all as expected.\n"@,
            Err(message) => !all_as_expected(result_views(results@)) && message@
                == "one or more scenarios did not match the expected outcome"@,
        },
{
    let n: usize = results.len();
    let mut i: usize = 0;
    while i < n
        invariant
            n == results@.len(),
            i <= n,
            forall|j: int| 0 <= j < i ==> (#[trigger] result_views(results@)[j]).as_expected(),
        decreases n - i,
    {
        if !results[i].passed() {
            assert(!result_views(results@)[i as int].as_expected());
            return Err("one or more scenarios did not match the expected outcome".to_owned());
        }
        i += 1;
    }
    let mut line = "  ".to_owned();
    line.append(decimal_string(n as u64).as_str());
    line.append(" scenarios, all as expected.\n");
    Ok(line)
}

fn push_line(lines: &mut Vec<String>, line: String)
    ensures
        texts(final(lines)@) == texts(old(lines)@).push(line@),
{
    lines.push(line);
    assert(texts(lines@) =~= texts(old(lines)@).push(line@));
}

fn push_str(lines: &mut Vec<String>, line: &str)
    ensures
        texts(final(lines)@) == texts(old(lines)@).push(line@),
{
    push_line(lines, line.to_owned());
}

/// The table's line for one result, whose verifier latency reads `latency` (such as `0.42ms`).
pub open spec fn table_row(r: ResultView, latency: Option<Seq<char>>) -> Seq<char> {
    "  ["@ + (if r.as_expected() {
        "ok "@
    } else {
        "BAD"@
    }) + "] "@ + (if r.got_allow {
        "ALLOW"@
    } else {
        "DENY "@
    }) + " "@ + padded(r.got_reason, 28) + " "@ + padded(r.name, 46) + " (verifier "@ + (
    match latency {
        Some(l) => l,
        None => "-"@,
    }) + ")"@
}

/// The table's line for one result, whose verifier latency reads `latency` (such as `0.42ms`).
pub fn table_line(r: &ScenarioResult, latency: Option<&str>) -> (res: String)
    ensures
        res@ == table_row(r@, opt_str_text(latency)),
{
    let mut line = "  [".to_owned();
    line.append(
        if r.passed() {
            "ok "
        } else {
            "BAD"
        },
    );
    line.append("] ");
    line.append(
        if r.got_allow {
            "ALLOW"
        } else {
            "DENY "
        },
    );
    line.append(" ");
    line.append(pad(r.got_reason.as_str(), 28).as_str());
    line.append(" ");
    line.append(pad(r.name, 46).as_str());
    line.append(" (verifier ");
    line.append(
        match latency {
            Some(l) => l,
            None => "-",
        },
    );
    line.append(")");
    line
}

/// The views of some latency texts.
pub open spec fn latency_texts(latencies: Seq<Option<String>>) -> Seq<Option<Seq<char>>> {
    Seq::new(latencies.len(), |i: int| opt_text(latencies[i]))
}

/// The table's lines for some results.
pub open spec fn table_rows(results: Seq<ResultView>, latencies: Seq<Option<Seq<char>>>) -> Seq<
    Seq<char>,
> {
    Seq::new(results.len(), |i: int| table_row(results[i], latencies[i]))
}

/// The compact all-at-once table, with one audit event where there is one.
pub open spec fn table(
    results: Seq<ResultView>,
    latencies: Seq<Option<Seq<char>>>,
    verifier_url: Seq<char>,
    audit_json: Option<Seq<char>>,
) -> Seq<Seq<char>> {
    seq![
        ""@,
        "  OpenShell ext-authz middleware — reference demo"@,
        "  verifier: "@ + verifier_url,
        ""@,
    ] + table_rows(results, latencies) + seq![""@, "  --- one audit event (JSON) ---"@] + (
    match audit_json {
        Some(j) => seq!["  "@ + j],
        None => Seq::empty(),
    }) + seq![""@]
}

/// The compact all-at-once table (also the smoke-test view). Each result comes with the text
/// of its verifier latency; `audit_json` is the first result's audit event.
pub fn render_table(
    results: &[ScenarioResult],
    latencies: &[Option<String>],
    verifier_url: &str,
    audit_json: Option<&str>,
) -> (res: Vec<String>)
    requires
        latencies@.len() == results@.len(),
    ensures
        texts(res@) == table(
            result_views(results@),
            latency_texts(latencies@),
            verifier_url@,
            opt_str_text(audit_json),
        ),
{
    let mut lines: Vec<String> = Vec::new();
    assert(texts(lines@) =~= Seq::empty());
    push_str(&mut lines, "");
    push_str(&mut lines, "  OpenShell ext-authz middleware — reference demo");
    let mut line = "  verifier: ".to_owned();
    line.append(verifier_url);
    push_line(&mut lines, line);
    push_str(&mut lines, "");
    let ghost head = texts(lines@);
    let ghost rows = table_rows(result_views(results@), latency_texts(latencies@));
    let n: usize = results.len();
    let mut i: usize = 0;
    assert(head =~= head + rows.take(0));
    while i < n
        invariant
            n == results@.len(),
            n == latencies@.len(),
            i <= n,
            rows == table_rows(result_views(results@), latency_texts(latencies@)),
            texts(lines@) == head + rows.take(i as int),
        decreases n - i,
    {
        let latency: Option<&str> = match &latencies[i] {
            Some(l) => Some(l.as_str()),
            None => None,
        };
        push_line(&mut lines, table_line(&results[i], latency));
        assert(head + rows.take(i + 1) =~= (head + rows.take(i as int)).push(rows[i as int]));
        i += 1;
    }
    assert(rows.take(n as int) =~= rows);
    push_str(&mut lines, "");
    push_str(&mut lines, "  --- one audit event (JSON) ---");
    if let Some(j) = audit_json {
        let mut line = "  ".to_owned();
        line.append(j);
        push_line(&mut lines, line);
    }
    push_str(&mut lines, "");
    assert(texts(lines@) =~= table(
        result_views(results@),
        latency_texts(latencies@),
        verifier_url@,
        opt_str_text(audit_json),
    ));
    lines
}

/// The rule between scenarios.
pub const RULE: &'static str = "  ────────────────────────────────────────────────────────────────";

/// The story's opening lines.
pub fn story_opening(c: &Colors, verifier_url: &str) -> (res: Vec<String>)
    ensures
        texts(res@) == seq![
            ""@,
            "  "@ + c@.bold
                + "OpenShell ext-authz — per-action authorization, one request at a time"@
                + c@.reset,
            "  "@ + c@.dim + "verifier "@ + verifier_url@ + c@.reset,
        ],
{
    let mut lines: Vec<String> = Vec::new();
    assert(texts(lines@) =~= Seq::empty());
    push_str(&mut lines, "");
    let mut line = "  ".to_owned();
    line.append(c.bold);
    line.append("OpenShell ext-authz — per-action authorization, one request at a time");
    line.append(c.reset);
    push_line(&mut lines, line);
    let mut line = "  ".to_owned();
    line.append(c.dim);
    line.append("verifier ");
    line.append(verifier_url);
    line.append(c.reset);
    push_line(&mut lines, line);
    lines
}

/// The lines that introduce a scenario, the `number`th of `total`.
pub open spec fn introduction(c: ColorsView, number: nat, total: nat, r: ResultView) -> Seq<
    Seq<char>,
> {
    seq![
        RULE@,
        "  "@ + c.dim + "scenario "@ + decimal(number) + " of "@ + decimal(total) + c.reset
            + "   "@ + c.bold + r.name + c.reset,
        ""@,
        "  "@ + c.dim + "why"@ + c.reset + "      "@ + r.narrative,
        ""@,
        "  request   "@ + r.audit.method + " "@ + r.audit.authority + r.audit.path,
        "            agent  "@ + r.audit.agent_id + " · sandbox "@ + r.audit.sandbox_id,
    ] + (if r.body_preview.len() == 0 {
        Seq::empty()
    } else {
        seq![
            "            body   "@ + r.body_preview + "  "@ + c.dim + "("@ + decimal(
                r.body_len as nat,
            ) + " bytes)"@ + c.reset,
        ]
    }) + seq![
        "            token  "@ + (if r.token_present {
            "x-hawcx-haap-token: present"@
        } else {
            "(none)"@
        }),
        ""@,
    ]
}

/// The lines that introduce the scenario at `index` of `total`.
pub fn story_introduction(c: &Colors, index: usize, total: usize, r: &ScenarioResult) -> (res: Vec<
    String,
>)
    requires
        index < total,
    ensures
        texts(res@) == introduction(c@, index as nat + 1, total as nat, r@),
{
    let mut lines: Vec<String> = Vec::new();
    assert(texts(lines@) =~= Seq::empty());
    push_str(&mut lines, RULE);
    let mut line = "  ".to_owned();
    line.append(c.dim);
    line.append("scenario ");
    line.append(decimal_string((index + 1) as u64).as_str());
    line.append(" of ");
    line.append(decimal_string(total as u64).as_str());
    line.append(c.reset);
    line.append("   ");
    line.append(c.bold);
    line.append(r.name);
    line.append(c.reset);
    push_line(&mut lines, line);
    push_str(&mut lines, "");
    let mut line = "  ".to_owned();
    line.append(c.dim);
    line.append("why");
    line.append(c.reset);
    line.append("      ");
    line.append(r.narrative);
    push_line(&mut lines, line);
    push_str(&mut lines, "");
    let mut line = "  request   ".to_owned();
    line.append(r.audit.method.as_str());
    line.append(" ");
    line.append(r.audit.authority.as_str());
    line.append(r.audit.path.as_str());
    push_line(&mut lines, line);
    let mut line = "            agent  ".to_owned();
    line.append(r.audit.agent_id.as_str());
    line.append(" · sandbox ");
    line.append(r.audit.sandbox_id.as_str());
    push_line(&mut lines, line);
    if !r.body_preview.as_str().is_empty() {
        let mut line = "            body   ".to_owned();
        line.append(r.body_preview.as_str());
        line.append("  ");
        line.append(c.dim);
        line.append("(");
        line.append(decimal_string(r.body_len as u64).as_str());
        line.append(" bytes)");
        line.append(c.reset);
        push_line(&mut lines, line);
    }
    let mut line = "            token  ".to_owned();
    line.append(
        if r.token_present {
            "x-hawcx-haap-token: present"
        } else {
            "(none)"
        },
    );
    push_line(&mut lines, line);
    push_str(&mut lines, "");
    assert(texts(lines@) =~= introduction(c@, index as nat + 1, total as nat, r@));
    lines
}

/// What is shown, without a line end, while the verifier is asked.
pub fn story_prompt(c: &Colors) -> (res: String)
    ensures
        res@ == "  "@ + c@.dim
            + "-> ext-authz: hashing the egress bytes, asking the verifier ..."@ + c@.reset,
{
    let mut line = "  ".to_owned();
    line.append(c.dim);
    line.append("-> ext-authz: hashing the egress bytes, asking the verifier ...");
    line.append(c.reset);
    line
}

/// The lines on the request hash: beside the one that the token is bound to, where that is
/// given; none for a request that was not hashed.
pub open spec fn hash_lines(c: ColorsView, r: ResultView) -> Seq<Seq<char>> {
    match (r.crh_hex, r.bound_crh) {
        (Some(crh), Some(bound)) => seq![
            "  crh       request     "@ + abbreviated(crh),
            "            token-bound "@ + abbreviated(bound) + "   "@ + c.red
                + "!= bytes changed after mint"@ + c.reset,
            ""@,
        ],
        (Some(crh), None) => seq![
            "  crh       "@ + abbreviated(crh) + "  "@ + c.dim + "(over the bytes that egress)"@
                + c.reset,
            ""@,
        ],
        (None, _) => Seq::empty(),
    }
}

/// The lines on what a scenario came to.
pub open spec fn outcome_lines(
    c: ColorsView,
    r: ResultView,
    latency: Option<Seq<char>>,
    audit_json: Option<Seq<char>>,
) -> Seq<Seq<char>> {
    hash_lines(c, r) + seq![
        "  verdict   "@ + (if r.got_allow {
            c.green
        } else {
            c.red
        }) + (if r.got_allow {
            "ALLOW"@
        } else {
            "DENY"@
        }) + c.reset + "  ·  "@ + r.got_reason + (match r.http_status {
            Some(status) => "  ·  HTTP "@ + decimal(status as nat),
            None => ""@,
        }),
        "            "@ + c.dim + r.message + c.reset,
        "            "@ + c.dim + "verifier "@ + (match latency {
            Some(l) => l,
            None => "—"@,
        }) + c.reset,
    ] + (if r.as_expected() {
        Seq::empty()
    } else {
        seq![
            "  "@ + c.red + "MISMATCH — expected "@ + (if r.expect_allow {
                "allow"@
            } else {
                "deny"@
            }) + "/"@ + r.expect_reason + c.reset,
        ]
    }) + seq![""@] + (match audit_json {
        Some(j) => seq!["  "@ + c.dim + "audit"@ + c.reset + "    "@ + c.dim + j + c.reset],
        None => Seq::empty(),
    })
}

fn story_hash(c: &Colors, r: &ScenarioResult) -> (res: Vec<String>)
    requires
        r@.crh_hex is Some ==> abbreviable(r@.crh_hex->0),
        r@.crh_hex is Some && r@.bound_crh is Some ==> abbreviable(r@.bound_crh->0),
    ensures
        texts(res@) == hash_lines(c@, r@),
{
    let mut lines: Vec<String> = Vec::new();
    assert(texts(lines@) =~= Seq::empty());
    if let Some(req_crh) = &r.crh_hex {
        match &r.bound_crh {
            Some(bound) => {
                let mut line = "  crh       request     ".to_owned();
                line.append(short(req_crh.as_str()).as_str());
                push_line(&mut lines, line);
                let mut line = "            token-bound ".to_owned();
                line.append(short(bound.as_str()).as_str());
                line.append("   ");
                line.append(c.red);
                line.append("!= bytes changed after mint");
                line.append(c.reset);
                push_line(&mut lines, line);
            },
            None => {
                let mut line = "  crh       ".to_owned();
                line.append(short(req_crh.as_str()).as_str());
                line.append("  ");
                line.append(c.dim);
                line.append("(over the bytes that egress)");
                line.append(c.reset);
                push_line(&mut lines, line);
            },
        }
        push_str(&mut lines, "");
    }
    lines
}

/// The lines on what a scenario came to, with the text of its verifier latency (such as
/// `0.42 ms`) and its audit event.
pub fn story_outcome(
    c: &Colors,
    r: &ScenarioResult,
    latency: Option<&str>,
    audit_json: Option<&str>,
) -> (res: Vec<String>)
    requires
        r@.crh_hex is Some ==> abbreviable(r@.crh_hex->0),
        r@.crh_hex is Some && r@.bound_crh is Some ==> abbreviable(r@.bound_crh->0),
    ensures
        texts(res@) == outcome_lines(c@, r@, opt_str_text(latency), opt_str_text(audit_json)),
{
    let mut lines = story_hash(c, r);
    let mut line = "  verdict   ".to_owned();
    line.append(
        if r.got_allow {
            c.green
        } else {
            c.red
        },
    );
    line.append(
        if r.got_allow {
            "ALLOW"
        } else {
            "DENY"
        },
    );
    line.append(c.reset);
    line.append("  ·  ");
    line.append(r.got_reason.as_str());
    let status = match r.http_status {
        Some(status) => {
            let mut s = "  ·  HTTP ".to_owned();
            s.append(decimal_string(status as u64).as_str());
            s
        },
        None => "".to_owned(),
    };
    line.append(status.as_str());
    push_line(&mut lines, line);
    let mut line = "            ".to_owned();
    line.append(c.dim);
    line.append(r.message.as_str());
    line.append(c.reset);
    push_line(&mut lines, line);
    let mut line = "            ".to_owned();
    line.append(c.dim);
    line.append("verifier ");
    line.append(
        match latency {
            Some(l) => l,
            None => "—",
        },
    );
    line.append(c.reset);
    push_line(&mut lines, line);
    if !r.passed() {
        let mut line = "  ".to_owned();
        line.append(c.red);
        line.append("MISMATCH — expected ");
        line.append(
            if r.expect_allow {
                "allow"
            } else {
                "deny"
            },
        );
        line.append("/");
        line.append(r.expect_reason);
        line.append(c.reset);
        push_line(&mut lines, line);
    }
    push_str(&mut lines, "");
    if let Some(j) = audit_json {
        let mut line = "  ".to_owned();
        line.append(c.dim);
        line.append("audit");
        line.append(c.reset);
        line.append("    ");
        line.append(c.dim);
        line.append(j);
        line.append(c.reset);
        push_line(&mut lines, line);
    }
    assert(texts(lines@) =~= outcome_lines(
        c@,
        r@,
        opt_str_text(latency),
        opt_str_text(audit_json),
    ));
    lines
}

/// Padding keeps the text, adds spaces only, and reaches the width where the text does not.
pub proof fn law_padding_adds_spaces_up_to_the_width(s: Seq<char>, width: nat)
    ensures
        padded(s, width).len() == if s.len() < width {
            width
        } else {
            s.len()
        },
        padded(s, width).take(s.len() as int) == s,
        forall|i: int| s.len() <= i < padded(s, width).len() ==> padded(s, width)[i] == ' ',
{
    assert(padded(s, width).take(s.len() as int) =~= s);
}

/// Abbreviating keeps a text of at most 20 bytes, and of any other the first and the last eight
/// bytes around an ellipsis.
pub proof fn law_abbreviating_keeps_both_ends(head: Seq<char>, middle: Seq<char>, tail: Seq<char>)
    requires
        encode_utf8(head).len() == 8,
        encode_utf8(tail).len() == 8,
    ensures
        encode_utf8(head + middle + tail).len() <= 20 ==> abbreviated(head + middle + tail) == head
            + middle + tail,
        encode_utf8(head + middle + tail).len() > 20 ==> abbreviated(head + middle + tail) == head
            + seq!['…'] + tail,
{
    reveal_strlit("…");
    assert("…"@ =~= seq!['…']);
    let h = head + middle + tail;
    lemma_encode_concat(head + middle, tail);
    lemma_encode_concat(head, middle);
    let bytes = encode_utf8(h);
    assert(bytes.subrange(0, 8) =~= encode_utf8(head));
    assert(bytes.subrange(bytes.len() - 8, bytes.len() as int) =~= encode_utf8(tail));
    vstd::utf8::encode_utf8_decode_utf8(head);
    vstd::utf8::encode_utf8_decode_utf8(tail);
}

proof fn lemma_encode_concat(a: Seq<char>, b: Seq<char>)
    ensures
        encode_utf8(a + b) == encode_utf8(a) + encode_utf8(b),
    decreases a.len(),
{
    if a.len() == 0 {
        assert(a + b =~= b);
        assert(encode_utf8(a) =~= Seq::empty());
        assert(encode_utf8(a) + encode_utf8(b) =~= encode_utf8(b));
    } else {
        assert((a + b).drop_first() =~= a.drop_first() + b);
        lemma_encode_concat(a.drop_first(), b);
        assert(encode_utf8(a + b) =~= encode_utf8(a) + encode_utf8(b));
    }
}

/// A row of the table marks the result `ok` exactly where decision and reason are the expected
/// ones, and tells the decision, the reason, the name and the latency.
pub proof fn law_what_a_row_tells(r: ResultView, latency: Option<Seq<char>>)
    ensures
        ({
            let mark = if r.got_allow == r.expect_allow && r.got_reason == r.expect_reason {
                "ok "@
            } else {
                "BAD"@
            };
            let decision = if r.got_allow {
                "ALLOW"@
            } else {
                "DENY "@
            };
            let took = if latency is Some {
                latency->0
            } else {
                "-"@
            };
            table_row(r, latency) == "  ["@ + mark + "] "@ + decision + " "@ + padded(
                r.got_reason,
                28,
            ) + " "@ + padded(r.name, 46) + " (verifier "@ + took + ")"@
        }),
{
}

/// The table has a row for each result, in order, between its head and the audit event.
pub proof fn law_the_table_has_a_row_per_result(
    results: Seq<ResultView>,
    latencies: Seq<Option<Seq<char>>>,
    verifier_url: Seq<char>,
    audit_json: Option<Seq<char>>,
)
    ensures
        ({
            let t = table(results, latencies, verifier_url, audit_json);
            let n = results.len() as int;
            let json = if audit_json is Some {
                1int
            } else {
                0
            };
            &&& t.len() == n + 7 + json
            &&& t[0] == ""@
            &&& t[1] == "  OpenShell ext-authz middleware — reference demo"@
            &&& t[2] == "  verifier: "@ + verifier_url
            &&& t[3] == ""@
            &&& forall|i: int|
                0 <= i < n ==> (#[trigger] t[i + 4]) == table_row(results[i], latencies[i])
            &&& t[n + 4] == ""@
            &&& t[n + 5] == "  --- one audit event (JSON) ---"@
            &&& audit_json is Some ==> t[n + 6] == "  "@ + audit_json->0
            &&& t[n + 6 + json] == ""@
        }),
{
}

/// Every result as expected means each of them, one by one.
pub proof fn law_all_as_expected_means_each(results: Seq<ResultView>)
    ensures
        all_as_expected(results) <==> forall|i: int|
            0 <= i < results.len() ==> (#[trigger] results[i]).got_allow == results[i].expect_allow
                && results[i].got_reason == results[i].expect_reason,
{
    if forall|i: int|
        0 <= i < results.len() ==> (#[trigger] results[i]).got_allow == results[i].expect_allow
            && results[i].got_reason == results[i].expect_reason {
        assert forall|i: int| 0 <= i < results.len() implies (
        #[trigger] results[i]).as_expected() by {}
    }
    if all_as_expected(results) {
        assert forall|i: int| 0 <= i < results.len() implies (#[trigger] results[i]).got_allow
            == results[i].expect_allow && results[i].got_reason == results[i].expect_reason by {
            assert(results[i].as_expected());
        }
    }
}

/// The introduction of a scenario numbers and names it, says why, and describes the request; the
/// body has a line exactly where there is something to show.
pub proof fn law_what_an_introduction_tells(c: ColorsView, number: nat, total: nat, r: ResultView)
    ensures
        ({
            let t = introduction(c, number, total, r);
            let body = if r.body_preview.len() > 0 {
                1int
            } else {
                0
            };
            &&& t.len() == 9 + body
            &&& t[0] == RULE@
            &&& t[1] == "  "@ + c.dim + "scenario "@ + decimal(number) + " of "@ + decimal(total)
                + c.reset + "   "@ + c.bold + r.name + c.reset
            &&& t[2] == ""@
            &&& t[3] == "  "@ + c.dim + "why"@ + c.reset + "      "@ + r.narrative
            &&& t[4] == ""@
            &&& t[5] == "  request   "@ + r.audit.method + " "@ + r.audit.authority + r.audit.path
            &&& t[6] == "            agent  "@ + r.audit.agent_id + " · sandbox "@
                + r.audit.sandbox_id
            &&& r.body_preview.len() > 0 ==> t[7] == "            body   "@ + r.body_preview + "  "@
                + c.dim + "("@ + decimal(r.body_len as nat) + " bytes)"@ + c.reset
            &&& r.token_present ==> t[7 + body] == "            token  "@
                + "x-hawcx-haap-token: present"@
            &&& !r.token_present ==> t[7 + body] == "            token  "@ + "(none)"@
            &&& t[8 + body] == ""@
        }),
{
}

/// The outcome of a scenario is told in order: the request hash, beside the bound one where that
/// is given; the verdict, in the color of the decision; the message; the latency; a mismatch
/// exactly where the result is not as expected; and the audit event.
pub proof fn law_what_an_outcome_tells(
    c: ColorsView,
    r: ResultView,
    latency: Option<Seq<char>>,
    audit_json: Option<Seq<char>>,
)
    ensures
        ({
            let t = outcome_lines(c, r, latency, audit_json);
            let h = if r.crh_hex is None {
                0int
            } else if r.bound_crh is None {
                2
            } else {
                3
            };
            let expected = r.got_allow == r.expect_allow && r.got_reason == r.expect_reason;
            let m = if expected {
                0int
            } else {
                1
            };
            let json = if audit_json is Some {
                1int
            } else {
                0
            };
            let status = if r.http_status is Some {
                "  ·  HTTP "@ + decimal(r.http_status->0 as nat)
            } else {
                ""@
            };
            &&& t.len() == h + 4 + m + json
            &&& h == 2 ==> t[0] == "  crh       "@ + abbreviated(r.crh_hex->0) + "  "@ + c.dim
                + "(over the bytes that egress)"@ + c.reset
            &&& h == 3 ==> t[0] == "  crh       request     "@ + abbreviated(r.crh_hex->0)
            &&& h == 3 ==> t[1] == "            token-bound "@ + abbreviated(r.bound_crh->0) + "   "@
                + c.red + "!= bytes changed after mint"@ + c.reset
            &&& h > 0 ==> t[h - 1] == ""@
            &&& r.got_allow ==> t[h] == "  verdict   "@ + c.green + "ALLOW"@ + c.reset + "  ·  "@
                + r.got_reason + status
            &&& !r.got_allow ==> t[h] == "  verdict   "@ + c.red + "DENY"@ + c.reset + "  ·  "@
                + r.got_reason + status
            &&& t[h + 1] == "            "@ + c.dim + r.message + c.reset
            &&& latency is Some ==> t[h + 2] == "            "@ + c.dim + "verifier "@ + latency->0
                + c.reset
            &&& latency is None ==> t[h + 2] == "            "@ + c.dim + "verifier "@ + "—"@
                + c.reset
            &&& !expected && r.expect_allow ==> t[h + 3] == "  "@ + c.red + "MISMATCH — expected "@
                + "allow"@ + "/"@ + r.expect_reason + c.reset
            &&& !expected && !r.expect_allow ==> t[h + 3] == "  "@ + c.red + "MISMATCH — expected "@
                + "deny"@ + "/"@ + r.expect_reason + c.reset
            &&& t[h + 3 + m] == ""@
            &&& audit_json is Some ==> t[h + 4 + m] == "  "@ + c.dim + "audit"@ + c.reset + "    "@
                + c.dim + audit_json->0 + c.reset
        }),
{
}

/// The view of colors shows every one of them.
pub proof fn law_colors_show_every_field(c: Colors)
    ensures
        c@.bold == c.bold@,
        c@.dim == c.dim@,
        c@.red == c.red@,
        c@.green == c.green@,
        c@.reset == c.reset@,
{
}

/// The views of results and latencies are theirs, one for one.
pub proof fn law_result_views_are_the_results_in_order(
    results: Seq<ScenarioResult>,
    latencies: Seq<Option<String>>,
)
    ensures
        result_views(results).len() == results.len(),
        forall|i: int|
            0 <= i < results.len() ==> (#[trigger] result_views(results)[i]) == results[i]@,
        latency_texts(latencies).len() == latencies.len(),
        forall|i: int|
            0 <= i < latencies.len() ==> (#[trigger] latency_texts(latencies)[i]) == opt_text(
                latencies[i],
            ),
{
}

} // verus!
