//! What the text output shows: results, values, schemas and model listings,
//! as lines of styled pieces that the terminal front end prints.

use vstd::prelude::*;
use crate::json::{Json, JsonV};
use crate::providers::{
    infos_view, opt_json, status_name, ModelInfo, ModelInfoV, ModelSchema, ModelSchemaV,
    PredictionMetrics, PredictionResult, PredictionResultV, PredictionStatus,
};
use crate::text::{
    byte_len, byte_prefix, concat2, concat3, decimal, decimal_string, has_prefix, on_boundary,
    starts_with, str_byte_len, take_bytes, text_eq,
};

verus! {

/// How a piece of text is shown.
#[derive(Clone, Copy, Debug, PartialEq, Eq, Structural)]
pub enum Style {
    Plain,
    Bold,
    Dim,
    Yellow,
    Green,
    GreenBold,
    Red,
    RedBold,
    Cyan,
    BlueUnderlined,
}

/// A piece of a line.
pub enum Piece {
    /// Text in a style.
    Text(String, Style),
    /// A duration in seconds, held as the bit pattern of a double, shown
    /// with two decimals.
    Seconds(u64),
    /// A JSON value, shown pretty-printed.
    PrettyJson(Json),
}

/// The mathematical form of a piece.
pub enum PieceV {
    Text(Seq<char>, Style),
    Seconds(u64),
    PrettyJson(JsonV),
}

impl View for Piece {
    type V = PieceV;

    open spec fn view(&self) -> PieceV {
        match self {
            Piece::Text(s, st) => PieceV::Text(s@, *st),
            Piece::Seconds(b) => PieceV::Seconds(*b),
            Piece::PrettyJson(j) => PieceV::PrettyJson(j@),
        }
    }
}

/// The mathematical form of a line.
pub open spec fn line_view(l: Seq<Piece>) -> Seq<PieceV> {
    Seq::new(l.len(), |i: int| l[i]@)
}

/// The mathematical form of a list of lines.
pub open spec fn lines_view(ls: Seq<Vec<Piece>>) -> Seq<Seq<PieceV>> {
    Seq::new(ls.len(), |i: int| line_view(ls[i]@))
}

/// A plain piece.
pub open spec fn plain(s: Seq<char>) -> PieceV {
    PieceV::Text(s, Style::Plain)
}

/// `n` spaces.
pub open spec fn spaces(n: nat) -> Seq<char> {
    Seq::new(n, |i: int| ' ')
}

/// Whether a string reads as a web address.
pub open spec fn is_url(s: Seq<char>) -> bool {
    has_prefix(s, "http://"@) || has_prefix(s, "https://"@)
}

/// Whether a string can be shown: a long one that is not a web address is
/// cut at byte 97, which must fall between characters.
pub open spec fn str_showable(s: Seq<char>) -> bool {
    !is_url(s) && byte_len(s) > 100 ==> on_boundary(s, 97)
}

/// The pieces of a value that is neither an array nor an object, after
/// `prefix`: a web address is underlined in blue, a string longer than 100
/// bytes is cut to 97 bytes and an ellipsis.
pub open spec fn scalar_pieces(v: JsonV, prefix: Seq<char>) -> Seq<PieceV> {
    match v {
        JsonV::Null => seq![plain(prefix + "null"@)],
        JsonV::Bool(b) => seq![plain(prefix + if b { "true"@ } else { "false"@ })],
        JsonV::Number(n) => seq![plain(prefix + n)],
        JsonV::Str(s) => if is_url(s) {
            seq![plain(prefix), PieceV::Text(s, Style::BlueUnderlined)]
        } else if byte_len(s) > 100 {
            seq![plain(prefix + byte_prefix(s, 97) + "..."@)]
        } else {
            seq![plain(prefix + s)]
        },
        _ => Seq::empty(),
    }
}

/// Whether a value is an array or an object.
pub open spec fn is_container(v: JsonV) -> bool {
    v is Array || v is Object
}

/// The lines of a value at an indentation: a scalar on one line; each
/// element of an array two columns further in, under an `[i]:` label when
/// there is more than one; each member of an object as `key: ` followed by
/// a scalar on the same line, or by a nested value two columns further in.
pub open spec fn value_lines(v: JsonV, indent: nat) -> Seq<Seq<PieceV>>
    decreases v, 0nat,
{
    match v {
        JsonV::Array(items) => array_lines(items, items.len(), indent, items.len() > 1),
        JsonV::Object(entries) => object_lines(entries, entries.len(), indent),
        _ => seq![scalar_pieces(v, spaces(indent))],
    }
}

/// The lines of the first `n` elements of an array.
pub open spec fn array_lines(items: Seq<JsonV>, n: nat, indent: nat, labeled: bool) -> Seq<
    Seq<PieceV>,
>
    decreases items, n,
{
    if n == 0 || n > items.len() {
        Seq::empty()
    } else {
        let k = (n - 1) as nat;
        array_lines(items, k, indent, labeled) + (if labeled {
            seq![seq![plain(spaces(indent) + "["@ + decimal(k) + "]:"@)]]
        } else {
            Seq::empty()
        }) + value_lines(items[k as int], indent + 2)
    }
}

/// The key part of a member's first line.
pub open spec fn key_pieces(key: Seq<char>, indent: nat) -> Seq<PieceV> {
    seq![plain(spaces(indent)), PieceV::Text(key, Style::Cyan), plain(": "@)]
}

/// The lines of the first `n` members of an object.
pub open spec fn object_lines(entries: Seq<(Seq<char>, JsonV)>, n: nat, indent: nat) -> Seq<
    Seq<PieceV>,
>
    decreases entries, n,
{
    if n == 0 || n > entries.len() {
        Seq::empty()
    } else {
        let k = (n - 1) as nat;
        let e = entries[k as int];
        object_lines(entries, k, indent) + if is_container(e.1) {
            seq![key_pieces(e.0, indent)] + value_lines(e.1, indent + 2)
        } else {
            seq![key_pieces(e.0, indent) + scalar_pieces(e.1, Seq::empty())]
        }
    }
}

/// Whether a value can be shown at an indentation: every long string can be
/// cut, and the indentation of nested values fits in a `usize`.
pub open spec fn showable(v: JsonV, indent: nat) -> bool
    decreases v, 0nat,
{
    match v {
        JsonV::Str(s) => str_showable(s),
        JsonV::Array(items) => indent + 2 <= usize::MAX && items_showable(items, items.len(), indent + 2),
        JsonV::Object(entries) => indent + 2 <= usize::MAX && entries_showable(entries, entries.len(), indent),
        _ => true,
    }
}

/// Whether the first `n` elements of an array can be shown.
pub open spec fn items_showable(items: Seq<JsonV>, n: nat, indent: nat) -> bool
    decreases items, n,
{
    if n == 0 || n > items.len() {
        true
    } else {
        items_showable(items, (n - 1) as nat, indent) && showable(items[n - 1], indent)
    }
}

/// Whether the first `n` members of an object can be shown.
pub open spec fn entries_showable(entries: Seq<(Seq<char>, JsonV)>, n: nat, indent: nat) -> bool
    decreases entries, n,
{
    if n == 0 || n > entries.len() {
        true
    } else {
        let e = entries[n - 1];
        entries_showable(entries, (n - 1) as nat, indent) && if is_container(e.1) {
            showable(e.1, indent + 2)
        } else {
            showable(e.1, 0)
        }
    }
}

fn spaces_string(n: usize) -> (s: String)
    ensures
        s@ == spaces(n as nat),
{
    let mut s = String::new();
    let mut i: usize = 0;
    while i < n
        invariant
            i <= n,
            s@ == spaces(i as nat),
        decreases n - i,
    {
        s.append(" ");
        proof {
            reveal_strlit(" ");
        }
        assert(s@ =~= spaces((i + 1) as nat));
        i = i + 1;
    }
    s
}

/// A piece of plain text.
pub fn plain_piece(s: String) -> (p: Piece)
    ensures
        p@ == plain(s@),
{
    Piece::Text(s, Style::Plain)
}

fn push_piece(line: &mut Vec<Piece>, p: Piece)
    ensures
        line_view(final(line)@) == line_view(old(line)@).push(p@),
{
    line.push(p);
    assert(line_view(line@) =~= line_view(old(line)@).push(p@));
}

fn push_out_line(lines: &mut Vec<Vec<Piece>>, l: Vec<Piece>)
    ensures
        lines_view(final(lines)@) == lines_view(old(lines)@).push(line_view(l@)),
{
    lines.push(l);
    assert(lines_view(lines@) =~= lines_view(old(lines)@).push(line_view(l@)));
}

fn append_lines(lines: &mut Vec<Vec<Piece>>, more: Vec<Vec<Piece>>)
    ensures
        lines_view(final(lines)@) == lines_view(old(lines)@) + lines_view(more@),
{
    let ghost m0 = more@;
    let mut more = more;
    lines.append(&mut more);
    assert(lines_view(lines@) =~= lines_view(old(lines)@) + lines_view(m0));
}

fn one_line(p: Piece) -> (l: Vec<Piece>)
    ensures
        line_view(l@) == seq![p@],
{
    let mut l: Vec<Piece> = Vec::new();
    push_piece(&mut l, p);
    assert(line_view(l@) =~= seq![p@]);
    l
}

/// The pieces of a value that is neither an array nor an object.
fn scalar_line(v: &Json, prefix: String) -> (l: Vec<Piece>)
    requires
        !is_container(v@),
        showable(v@, 0),
    ensures
        line_view(l@) == scalar_pieces(v@, prefix@),
{
    match v {
        Json::Null => one_line(plain_piece(concat2(prefix.as_str(), "null"))),
        Json::Bool(b) => {
            let w = if *b {
                "true"
            } else {
                "false"
            };
            one_line(plain_piece(concat2(prefix.as_str(), w)))
        },
        Json::Number(n) => one_line(plain_piece(concat2(prefix.as_str(), n.as_str()))),
        Json::Str(s) => {
            if starts_with(s.as_str(), "http://") || starts_with(s.as_str(), "https://") {
                let mut l = one_line(plain_piece(prefix));
                push_piece(&mut l, Piece::Text(s.clone(), Style::BlueUnderlined));
                assert(line_view(l@) =~= scalar_pieces(v@, prefix@));
                l
            } else if str_byte_len(s.as_str()) > 100 {
                let head = take_bytes(s.as_str(), 97);
                one_line(plain_piece(concat3(prefix.as_str(), head.as_str(), "...")))
            } else {
                one_line(plain_piece(concat2(prefix.as_str(), s.as_str())))
            }
        },
        _ => Vec::new(),
    }
}

/// The lines of a value at an indentation.
pub fn render_value(v: &Json, indent: usize) -> (lines: Vec<Vec<Piece>>)
    requires
        showable(v@, indent as nat),
    ensures
        lines_view(lines@) == value_lines(v@, indent as nat),
    decreases v,
{
    match v {
        Json::Array(items) => {
            let ghost iv = v@->Array_0;
            assert(iv.len() == items@.len());
            let labeled = items.len() > 1;
            let mut out: Vec<Vec<Piece>> = Vec::new();
            let mut i: usize = 0;
            while i < items.len()
                invariant
                    i <= items@.len(),
                    *v == Json::Array(*items),
                    iv == v@->Array_0,
                    iv.len() == items@.len(),
                    labeled == (items@.len() > 1),
                    indent + 2 <= usize::MAX,
                    items_showable(iv, iv.len(), (indent + 2) as nat),
                    lines_view(out@) == array_lines(iv, i as nat, indent as nat, labeled),
                decreases items@.len() - i,
            {
                assert(iv[i as int] == items@[i as int]@);
                proof {
                    lemma_items_showable(iv, iv.len(), i as nat, (indent + 2) as nat);
                }
                if labeled {
                    let mut label = spaces_string(indent);
                    label.append("[");
                    let d = decimal_string(i as u64);
                    label.append(d.as_str());
                    label.append("]:");
                    push_out_line(&mut out, one_line(plain_piece(label)));
                }
                proof {
                    assert(decreases_to!(items => items@));
                    assert(decreases_to!(items@ => items@[i as int]));
                    assert(decreases_to!(*v => (*v)->Array_0));
                }
                let sub = render_value(&items[i], indent + 2);
                append_lines(&mut out, sub);
                i = i + 1;
            }
            out
        },
        Json::Object(entries) => {
            let ghost ev = v@->Object_0;
            assert(ev.len() == entries@.len());
            let mut out: Vec<Vec<Piece>> = Vec::new();
            let mut i: usize = 0;
            while i < entries.len()
                invariant
                    i <= entries@.len(),
                    *v == Json::Object(*entries),
                    ev == v@->Object_0,
                    ev.len() == entries@.len(),
                    indent + 2 <= usize::MAX,
                    entries_showable(ev, ev.len(), indent as nat),
                    lines_view(out@) == object_lines(ev, i as nat, indent as nat),
                decreases entries@.len() - i,
            {
                assert(ev[i as int] == (entries@[i as int].0@, entries@[i as int].1@));
                proof {
                    lemma_entries_showable(ev, ev.len(), i as nat, indent as nat);
                }
                let (key, val) = &entries[i];
                let mut head: Vec<Piece> = Vec::new();
                push_piece(&mut head, plain_piece(spaces_string(indent)));
                push_piece(&mut head, Piece::Text(key.clone(), Style::Cyan));
                push_piece(&mut head, plain_piece(": ".to_owned()));
                assert(line_view(head@) =~= key_pieces(key@, indent as nat));
                proof {
                    assert(decreases_to!(entries => entries@));
                    assert(decreases_to!(entries@ => entries@[i as int]));
                    assert(decreases_to!(entries@[i as int] => entries@[i as int].1));
                    assert(decreases_to!(*v => (*v)->Object_0));
                }
                let nested = match val {
                    Json::Array(_) | Json::Object(_) => true,
                    _ => false,
                };
                if nested {
                    push_out_line(&mut out, head);
                    let sub = render_value(val, indent + 2);
                    append_lines(&mut out, sub);
                } else {
                    let tail = scalar_line(val, String::new());
                    let mut line = head;
                    let mut tail = tail;
                    line.append(&mut tail);
                    assert(line_view(line@) =~= key_pieces(key@, indent as nat) + scalar_pieces(
                        val@,
                        Seq::empty(),
                    ));
                    push_out_line(&mut out, line);
                }
                i = i + 1;
            }
            out
        },
        _ => {
            let prefix = spaces_string(indent);
            let l = scalar_line(v, prefix);
            let mut out: Vec<Vec<Piece>> = Vec::new();
            push_out_line(&mut out, l);
            assert(lines_view(out@) =~= value_lines(v@, indent as nat));
            out
        },
    }
}

proof fn lemma_items_showable(items: Seq<JsonV>, n: nat, i: nat, indent: nat)
    requires
        items_showable(items, n, indent),
        i < n <= items.len(),
    ensures
        showable(items[i as int], indent),
    decreases n,
{
    if i + 1 < n {
        lemma_items_showable(items, (n - 1) as nat, i, indent);
    }
}

proof fn lemma_entries_showable(entries: Seq<(Seq<char>, JsonV)>, n: nat, i: nat, indent: nat)
    requires
        entries_showable(entries, n, indent),
        i < n <= entries.len(),
    ensures
        if is_container(entries[i as int].1) {
            showable(entries[i as int].1, indent + 2)
        } else {
            showable(entries[i as int].1, 0)
        },
    decreases n,
{
    if i + 1 < n {
        lemma_entries_showable(entries, (n - 1) as nat, i, indent);
    }
}

/// The style in which a status is shown.
pub open spec fn status_style(s: PredictionStatus) -> Style {
    match s {
        PredictionStatus::Starting => Style::Yellow,
        PredictionStatus::Processing => Style::Yellow,
        PredictionStatus::Succeeded => Style::Green,
        PredictionStatus::Failed => Style::Red,
        PredictionStatus::Canceled => Style::Dim,
    }
}

/// A line of a bold label, a space and plain text.
pub open spec fn labelled(label: Seq<char>, label_style: Style, text: Seq<char>) -> Seq<PieceV> {
    seq![PieceV::Text(label, label_style), plain(" "@), plain(text)]
}

/// The metric lines of a verbose result.
pub open spec fn metrics_lines(m: PredictionMetrics) -> Seq<Seq<PieceV>> {
    seq![seq![], seq![PieceV::Text("Metrics:"@, Style::Bold)]] + (match m.predict_time {
        Some(t) => seq![seq![plain("  Predict time: "@), PieceV::Seconds(t), plain("s"@)]],
        None => Seq::empty(),
    }) + match m.total_time {
        Some(t) => seq![seq![plain("  Total time: "@), PieceV::Seconds(t), plain("s"@)]],
        None => Seq::empty(),
    }
}

/// The URL lines of a verbose result.
pub open spec fn url_lines(u: (Option<Seq<char>>, Option<Seq<char>>)) -> Seq<Seq<PieceV>> {
    seq![seq![], seq![PieceV::Text("URLs:"@, Style::Bold)]] + (match u.0 {
        Some(g) => seq![seq![plain("  Get: "@ + g)]],
        None => Seq::empty(),
    }) + match u.1 {
        Some(c) => seq![seq![plain("  Cancel: "@ + c)]],
        None => Seq::empty(),
    }
}

/// The text form of a prediction result: its status, id, error and output;
/// when verbose, also its timings and URLs.
pub open spec fn result_lines(r: PredictionResultV, verbose: bool) -> Seq<Seq<PieceV>> {
    seq![
        seq![PieceV::Text("Status:"@, Style::Bold), plain(" "@), PieceV::Text(status_name(r.status), status_style(r.status))],
        labelled("ID:"@, Style::Bold, r.id),
    ] + (match r.error {
        Some(e) => seq![labelled("Error:"@, Style::RedBold, e)],
        None => Seq::empty(),
    }) + (match r.output {
        Some(o) => seq![seq![PieceV::Text("Output:"@, Style::Bold)]] + value_lines(o, 2),
        None => Seq::empty(),
    }) + (if verbose {
        (match r.metrics {
            Some(m) => metrics_lines(m),
            None => Seq::empty(),
        }) + match r.urls {
            Some(u) => url_lines(u),
            None => Seq::empty(),
        }
    } else {
        Seq::empty()
    })
}

/// Whether a result's output can be shown.
pub open spec fn result_showable(r: PredictionResultV) -> bool {
    match r.output {
        Some(o) => showable(o, 2),
        None => true,
    }
}

fn status_piece(s: PredictionStatus) -> (p: Piece)
    ensures
        p@ == PieceV::Text(status_name(s), status_style(s)),
{
    let style = match s {
        PredictionStatus::Starting => Style::Yellow,
        PredictionStatus::Processing => Style::Yellow,
        PredictionStatus::Succeeded => Style::Green,
        PredictionStatus::Failed => Style::Red,
        PredictionStatus::Canceled => Style::Dim,
    };
    Piece::Text(s.as_name().to_owned(), style)
}

fn labelled_line(label: &str, label_style: Style, text: &str) -> (l: Vec<Piece>)
    ensures
        line_view(l@) == labelled(label@, label_style, text@),
{
    let mut l: Vec<Piece> = Vec::new();
    push_piece(&mut l, Piece::Text(label.to_owned(), label_style));
    push_piece(&mut l, plain_piece(" ".to_owned()));
    push_piece(&mut l, plain_piece(text.to_owned()));
    assert(line_view(l@) =~= labelled(label@, label_style, text@));
    l
}

fn styled_line(text: &str, style: Style) -> (l: Vec<Piece>)
    ensures
        line_view(l@) == seq![PieceV::Text(text@, style)],
{
    one_line(Piece::Text(text.to_owned(), style))
}

fn timing_line(label: &str, bits: u64) -> (l: Vec<Piece>)
    ensures
        line_view(l@) == seq![plain(label@), PieceV::Seconds(bits), plain("s"@)],
{
    let mut l: Vec<Piece> = Vec::new();
    push_piece(&mut l, plain_piece(label.to_owned()));
    push_piece(&mut l, Piece::Seconds(bits));
    push_piece(&mut l, plain_piece("s".to_owned()));
    assert(line_view(l@) =~= seq![plain(label@), PieceV::Seconds(bits), plain("s"@)]);
    l
}

fn head_part(result: &PredictionResult) -> (lines: Vec<Vec<Piece>>)
    ensures
        lines_view(lines@) == seq![
            seq![PieceV::Text("Status:"@, Style::Bold), plain(" "@), PieceV::Text(status_name(result@.status), status_style(result@.status))],
            labelled("ID:"@, Style::Bold, result@.id),
        ] + match result@.error {
            Some(e) => seq![labelled("Error:"@, Style::RedBold, e)],
            None => Seq::<Seq<PieceV>>::empty(),
        },
{
    let mut out: Vec<Vec<Piece>> = Vec::new();
    let mut first: Vec<Piece> = Vec::new();
    push_piece(&mut first, Piece::Text("Status:".to_owned(), Style::Bold));
    push_piece(&mut first, plain_piece(" ".to_owned()));
    push_piece(&mut first, status_piece(result.status));
    assert(line_view(first@) =~= seq![PieceV::Text("Status:"@, Style::Bold), plain(" "@), PieceV::Text(status_name(result@.status), status_style(result@.status))]);
    push_out_line(&mut out, first);
    push_out_line(&mut out, labelled_line("ID:", Style::Bold, result.id.as_str()));
    if let Some(e) = &result.error {
        push_out_line(&mut out, labelled_line("Error:", Style::RedBold, e.as_str()));
    }
    assert(lines_view(out@) =~= seq![
            seq![PieceV::Text("Status:"@, Style::Bold), plain(" "@), PieceV::Text(status_name(result@.status), status_style(result@.status))],
            labelled("ID:"@, Style::Bold, result@.id),
        ] + match result@.error {
            Some(e) => seq![labelled("Error:"@, Style::RedBold, e)],
            None => Seq::<Seq<PieceV>>::empty(),
        });
    out
}

fn output_part(output: &Option<Json>) -> (lines: Vec<Vec<Piece>>)
    requires
        match opt_json(*output) {
            Some(o) => showable(o, 2),
            None => true,
        },
    ensures
        lines_view(lines@) == match opt_json(*output) {
            Some(o) => seq![seq![PieceV::Text("Output:"@, Style::Bold)]] + value_lines(o, 2),
            None => Seq::<Seq<PieceV>>::empty(),
        },
{
    let mut out: Vec<Vec<Piece>> = Vec::new();
    if let Some(o) = output {
        push_out_line(&mut out, styled_line("Output:", Style::Bold));
        let sub = render_value(o, 2);
        append_lines(&mut out, sub);
    }
    assert(lines_view(out@) =~= match opt_json(*output) {
            Some(o) => seq![seq![PieceV::Text("Output:"@, Style::Bold)]] + value_lines(o, 2),
            None => Seq::<Seq<PieceV>>::empty(),
        });
    out
}

fn empty_line() -> (l: Vec<Piece>)
    ensures
        line_view(l@) == Seq::<PieceV>::empty(),
{
    let l: Vec<Piece> = Vec::new();
    assert(line_view(l@) =~= Seq::<PieceV>::empty());
    l
}

fn metrics_part(m: &PredictionMetrics) -> (lines: Vec<Vec<Piece>>)
    ensures
        lines_view(lines@) == metrics_lines(*m),
{
    let mut out: Vec<Vec<Piece>> = Vec::new();
    push_out_line(&mut out, empty_line());
    push_out_line(&mut out, styled_line("Metrics:", Style::Bold));
    if let Some(t) = m.predict_time {
        push_out_line(&mut out, timing_line("  Predict time: ", t));
    }
    if let Some(t) = m.total_time {
        push_out_line(&mut out, timing_line("  Total time: ", t));
    }
    assert(lines_view(out@) =~= metrics_lines(*m));
    out
}

fn urls_part(u: &crate::providers::PredictionUrls) -> (lines: Vec<Vec<Piece>>)
    ensures
        lines_view(lines@) == url_lines(crate::providers::urls_view(*u)),
{
    let mut out: Vec<Vec<Piece>> = Vec::new();
    push_out_line(&mut out, empty_line());
    push_out_line(&mut out, styled_line("URLs:", Style::Bold));
    if let Some(g) = &u.get {
        push_out_line(&mut out, one_line(plain_piece(concat2("  Get: ", g.as_str()))));
    }
    if let Some(c) = &u.cancel {
        push_out_line(&mut out, one_line(plain_piece(concat2("  Cancel: ", c.as_str()))));
    }
    assert(lines_view(out@) =~= url_lines(crate::providers::urls_view(*u)));
    out
}

/// The text form of a prediction result.
pub fn render_result_text(result: &PredictionResult, verbose: bool) -> (lines: Vec<Vec<Piece>>)
    requires
        result_showable(result@),
    ensures
        lines_view(lines@) == result_lines(result@, verbose),
{
    let ghost r = result@;
    let mut out = head_part(result);
    let o = output_part(&result.output);
    append_lines(&mut out, o);
    if verbose {
        if let Some(m) = &result.metrics {
            append_lines(&mut out, metrics_part(m));
        }
        if let Some(u) = &result.urls {
            append_lines(&mut out, urls_part(u));
        }
    }
    assert(lines_view(out@) =~= result_lines(r, verbose));
    out
}

/// The text form of a schema: the model's name and description, then its
/// input schema and, if known, its output schema, each pretty-printed.
pub open spec fn schema_lines(s: ModelSchemaV) -> Seq<Seq<PieceV>> {
    seq![labelled("Model:"@, Style::Bold, s.name)] + (match s.description {
        Some(d) => seq![labelled("Description:"@, Style::Bold, d)],
        None => Seq::empty(),
    }) + seq![
        seq![],
        seq![PieceV::Text("Input Schema:"@, Style::Bold)],
        seq![PieceV::PrettyJson(s.input_schema)],
    ] + match s.output_schema {
        Some(o) => seq![
            seq![],
            seq![PieceV::Text("Output Schema:"@, Style::Bold)],
            seq![PieceV::PrettyJson(o)],
        ],
        None => Seq::empty(),
    }
}

/// The text form of a schema.
pub fn render_schema_text(schema: &ModelSchema) -> (lines: Vec<Vec<Piece>>)
    ensures
        lines_view(lines@) == schema_lines(schema@),
{
    let mut out: Vec<Vec<Piece>> = Vec::new();
    push_out_line(&mut out, labelled_line("Model:", Style::Bold, schema.name.as_str()));
    if let Some(d) = &schema.description {
        push_out_line(&mut out, labelled_line("Description:", Style::Bold, d.as_str()));
    }
    push_out_line(&mut out, empty_line());
    push_out_line(&mut out, styled_line("Input Schema:", Style::Bold));
    push_out_line(&mut out, one_line(Piece::PrettyJson(schema.input_schema.deep_clone())));
    if let Some(o) = &schema.output_schema {
        push_out_line(&mut out, empty_line());
        push_out_line(&mut out, styled_line("Output Schema:", Style::Bold));
        push_out_line(&mut out, one_line(Piece::PrettyJson(o.deep_clone())));
    }
    assert(lines_view(out@) =~= schema_lines(schema@));
    out
}

/// A description cut to fit a listing: one longer than `max` bytes is cut
/// to `keep` bytes and an ellipsis.
pub open spec fn shortened(desc: Seq<char>, max: nat, keep: nat) -> Seq<char> {
    if byte_len(desc) > max {
        byte_prefix(desc, keep as int) + "..."@
    } else {
        desc
    }
}

/// Whether a description can be cut where `shortened` cuts it.
pub open spec fn shortenable(desc: Seq<char>, max: nat, keep: nat) -> bool {
    byte_len(desc) > max ==> on_boundary(desc, keep as int)
}

/// Cuts a description that is longer than `max` bytes to `keep` bytes and an ellipsis.
pub fn shorten(desc: &str, max: usize, keep: usize) -> (s: String)
    requires
        shortenable(desc@, max as nat, keep as nat),
    ensures
        s@ == shortened(desc@, max as nat, keep as nat),
{
    if str_byte_len(desc) > max {
        let mut s = take_bytes(desc, keep);
        s.append("...");
        s
    } else {
        desc.to_owned()
    }
}

/// The lines of one model in a listing: its id in bold green; its name when
/// it is not empty and differs from the id; its description, shortened to
/// 80 bytes and dimmed; its owner; its URL underlined in blue; a blank line.
pub open spec fn model_lines(m: ModelInfoV) -> Seq<Seq<PieceV>> {
    seq![seq![PieceV::Text(m.id, Style::GreenBold)]] + (if m.name.len() != 0 && m.name != m.id {
        seq![seq![plain("  Name: "@ + m.name)]]
    } else {
        Seq::empty()
    }) + (match m.description {
        Some(d) => seq![seq![plain("  "@), PieceV::Text(shortened(d, 80, 77), Style::Dim)]],
        None => Seq::empty(),
    }) + (match m.owner {
        Some(o) => seq![seq![plain("  Owner: "@ + o)]],
        None => Seq::empty(),
    }) + (match m.url {
        Some(u) => seq![seq![plain("  URL: "@), PieceV::Text(u, Style::BlueUnderlined)]],
        None => Seq::empty(),
    }) + seq![seq![]]
}

/// The lines of the first `n` models of a listing.
pub open spec fn models_lines(ms: Seq<ModelInfoV>, n: nat) -> Seq<Seq<PieceV>>
    decreases n,
{
    if n == 0 || n > ms.len() {
        Seq::empty()
    } else {
        models_lines(ms, (n - 1) as nat) + model_lines(ms[n - 1])
    }
}

/// The text form of a listing; an empty one says so, dimmed.
pub open spec fn listing_lines(ms: Seq<ModelInfoV>) -> Seq<Seq<PieceV>> {
    if ms.len() == 0 {
        seq![seq![PieceV::Text("No models found."@, Style::Dim)]]
    } else {
        models_lines(ms, ms.len())
    }
}

/// Whether every description of a listing can be shortened.
pub open spec fn listing_showable(ms: Seq<ModelInfoV>) -> bool {
    forall|i: int|
        0 <= i < ms.len() ==> match (#[trigger] ms[i]).description {
            Some(d) => shortenable(d, 80, 77),
            None => true,
        }
}

fn model_part(m: &ModelInfo) -> (lines: Vec<Vec<Piece>>)
    requires
        match m@.description {
            Some(d) => shortenable(d, 80, 77),
            None => true,
        },
    ensures
        lines_view(lines@) == model_lines(m@),
{
    let mut out: Vec<Vec<Piece>> = Vec::new();
    push_out_line(&mut out, styled_line(m.id.as_str(), Style::GreenBold));
    if m.name.unicode_len() != 0 && !text_eq(m.name.as_str(), m.id.as_str()) {
        push_out_line(&mut out, one_line(plain_piece(concat2("  Name: ", m.name.as_str()))));
    }
    if let Some(d) = &m.description {
        let short = shorten(d.as_str(), 80, 77);
        let mut l = one_line(plain_piece("  ".to_owned()));
        push_piece(&mut l, Piece::Text(short, Style::Dim));
        assert(line_view(l@) =~= seq![plain("  "@), PieceV::Text(shortened(d@, 80, 77), Style::Dim)]);
        push_out_line(&mut out, l);
    }
    if let Some(o) = &m.owner {
        push_out_line(&mut out, one_line(plain_piece(concat2("  Owner: ", o.as_str()))));
    }
    if let Some(u) = &m.url {
        let mut l = one_line(plain_piece("  URL: ".to_owned()));
        push_piece(&mut l, Piece::Text(u.clone(), Style::BlueUnderlined));
        assert(line_view(l@) =~= seq![plain("  URL: "@), PieceV::Text(u@, Style::BlueUnderlined)]);
        push_out_line(&mut out, l);
    }
    push_out_line(&mut out, empty_line());
    assert(lines_view(out@) =~= model_lines(m@));
    out
}

/// The text form of a model listing.
pub fn render_models_text(models: &Vec<ModelInfo>) -> (lines: Vec<Vec<Piece>>)
    requires
        listing_showable(infos_view(models@)),
    ensures
        lines_view(lines@) == listing_lines(infos_view(models@)),
{
    let ghost ms = infos_view(models@);
    let mut out: Vec<Vec<Piece>> = Vec::new();
    if models.len() == 0 {
        push_out_line(&mut out, styled_line("No models found.", Style::Dim));
        assert(lines_view(out@) =~= listing_lines(ms));
        return out;
    }
    let mut i: usize = 0;
    while i < models.len()
        invariant
            i <= models@.len(),
            ms == infos_view(models@),
            listing_showable(ms),
            lines_view(out@) == models_lines(ms, i as nat),
        decreases models@.len() - i,
    {
        assert(ms[i as int] == models@[i as int]@);
        let part = model_part(&models[i]);
        append_lines(&mut out, part);
        i = i + 1;
    }
    out
}

} // verus!
