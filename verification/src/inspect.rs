//! The inspect pane of the models tab: a markdown summary of a model and
//! of what Ollama reports about it.
use vstd::prelude::*;

use crate::app::{join_editor_lines, join_lines, strings_view};
use crate::text::{chars_of, extend_chars, extend_str, string_of, trim, trimmed, slice_chars};
use crate::types::{Model, ModelDetails, ShowModelResponse};
use crate::styles::{short_model, short_model_text};
use crate::vram::{format_size, size_text};

verus! {

// ---------------------------------------------------------------------------
// Dates

/// Does `chrono` accept `s` as an RFC 3339 date and time?
pub uninterp spec fn is_rfc3339(s: Seq<char>) -> bool;

/// `YYYY-MM-DD HH:MM` read off an RFC 3339 text: its date, a space, and
/// its hours and minutes.
pub open spec fn minutes_text(s: Seq<char>) -> Seq<char> {
    s.take(10) + seq![' '] + s.subrange(11, 16)
}

/// A date and time in RFC 3339 form shown as `YYYY-MM-DD HH:MM`
/// (`chrono::DateTime::parse_from_rfc3339`, then `format` with
/// `"%Y-%m-%d %H:%M"`); `None` when `chrono` does not accept the text.
/// Which texts it accepts is left to `is_rfc3339`. What is stated is read
/// off chrono's parser and formatter: an accepted text starts with 19 ASCII
/// characters `YYYY-MM-DDTHH:MM:SS` (or `t` or a space in place of the
/// `T`), the date and time are shown in the text's own offset, and `%Y` pads
/// years below 1000 to four digits, so the result is the text's own date
/// and hour and minute digits.
#[verifier::external_body]
pub(crate) fn rfc3339_minutes(s: &str) -> (r: Option<String>)
    ensures
        r is Some == is_rfc3339(s@),
        r matches Some(t) ==> s@.len() >= 19 && t@ == minutes_text(s@),
{
    match chrono::DateTime::parse_from_rfc3339(s) {
        Ok(dt) => Some(dt.format("%Y-%m-%d %H:%M").to_string()),
        Err(_) => None,
    }
}

/// The date shown for a model's modification time: `YYYY-MM-DD HH:MM` when
/// it is RFC 3339, else the text as it is.
pub open spec fn modified_text(s: Seq<char>) -> Seq<char> {
    if is_rfc3339(s) {
        minutes_text(s)
    } else {
        s
    }
}

/// The shown modification date (see `modified_text`).
pub fn modified_label(s: &str) -> (r: String)
    ensures
        r@ == modified_text(s@),
{
    match rfc3339_minutes(s) {
        Some(t) => t,
        None => String::from_str(s),
    }
}

// ---------------------------------------------------------------------------
// The summary

/// A `label  value` line.
pub open spec fn field(label: Seq<char>, value: Seq<char>) -> Seq<char> {
    label + value + seq!['\n']
}

/// The lines for a model's details.
pub open spec fn detail_lines(d: ModelDetails) -> Seq<char> {
    field("**family**  "@, d.family@) + field("**params**  "@, d.parameter_size@) + field(
        "**quant**  "@,
        d.quantization_level@,
    ) + field("**format**  "@, d.format@)
}

/// The summary of the selected model.
pub open spec fn summary_text(model: Option<Model>) -> Seq<char> {
    "## summary\n\n"@ + match model {
        None => Seq::empty(),
        Some(m) => field("**name**  "@, m.name@) + field("**size**  "@, size_text(m.size as nat)) + (
        if is_rfc3339(m.modified_at@) {
            field("**modified**  "@, minutes_text(m.modified_at@))
        } else {
            Seq::empty()
        }) + match m.details {
            Some(d) => detail_lines(d),
            None => Seq::empty(),
        },
    }
}

/// Ollama's own details, with the list of families when it is not empty.
pub open spec fn details_text(details: Option<ModelDetails>) -> Seq<char> {
    match details {
        None => Seq::empty(),
        Some(d) => "\n## ollama details\n\n"@ + detail_lines(d) + match d.families {
            Some(f) => if f@.len() > 0 {
                field("**families**  "@, join_lines(strings_view(f@), ", "@))
            } else {
                Seq::empty()
            },
            None => Seq::empty(),
        },
    }
}

/// A section holding a trimmed text, left out when the text is blank; with
/// `fenced`, the text stands in a code block.
pub open spec fn section_text(title: Seq<char>, body: Option<String>, fenced: bool) -> Seq<char> {
    match body {
        None => Seq::empty(),
        Some(b) => {
            let t = trim(b@);
            if t.len() == 0 {
                Seq::empty()
            } else if fenced {
                "\n## "@ + title + "\n\n```\n"@ + t + "\n```\n"@
            } else {
                "\n## "@ + title + "\n\n"@ + t + seq!['\n']
            }
        },
    }
}

/// Most characters of a license that are shown.
pub const LICENSE_PREVIEW: usize = 4000;

/// The license section: the trimmed text, cut to its first 4000 characters
/// and marked when it is longer; left out when blank.
pub open spec fn license_text(body: Option<String>) -> Seq<char> {
    match body {
        None => Seq::empty(),
        Some(b) => {
            let t = trim(b@);
            if t.len() == 0 {
                Seq::empty()
            } else if t.len() > LICENSE_PREVIEW {
                "\n## license\n\n"@ + t.take(LICENSE_PREVIEW as int) + "\n\n… (truncated)\n"@
            } else {
                "\n## license\n\n"@ + t + seq!['\n']
            }
        },
    }
}

/// The markdown of the inspect pane, before the blank check.
pub open spec fn inspect_body(model: Option<Model>, info: ShowModelResponse) -> Seq<char> {
    summary_text(model) + details_text(info.details) + section_text("parameters"@, info.parameters, false)
        + section_text("template"@, info.template, true) + section_text("modelfile"@, info.modelfile, true)
        + license_text(info.license)
}

/// The markdown of the inspect pane; a notice when it would be blank.
pub open spec fn inspect_text(model: Option<Model>, info: ShowModelResponse) -> Seq<char> {
    let body = inspect_body(model, info);
    if trim(body).len() == 0 {
        "no metadata returned by ollama for this model\n"@
    } else {
        body
    }
}

fn push_field(out: &mut Vec<char>, label: &str, value: &[char])
    ensures
        final(out)@ == old(out)@ + field(label@, value@),
{
    extend_str(out, label);
    extend_chars(out, value);
    out.push('\n');
    assert(final(out)@ =~= old(out)@ + field(label@, value@));
}

fn push_details(out: &mut Vec<char>, d: &ModelDetails)
    ensures
        final(out)@ == old(out)@ + detail_lines(*d),
{
    let ghost start = out@;
    push_field(out, "**family**  ", chars_of(d.family.as_str()).as_slice());
    push_field(out, "**params**  ", chars_of(d.parameter_size.as_str()).as_slice());
    push_field(out, "**quant**  ", chars_of(d.quantization_level.as_str()).as_slice());
    push_field(out, "**format**  ", chars_of(d.format.as_str()).as_slice());
    assert(out@ =~= start + detail_lines(*d));
}

fn push_section(out: &mut Vec<char>, title: &str, body: &Option<String>, fenced: bool)
    ensures
        final(out)@ == old(out)@ + section_text(title@, *body, fenced),
{
    match body {
        None => {
            assert(out@ =~= old(out)@ + section_text(title@, *body, fenced));
        },
        Some(b) => {
            let t = trimmed(chars_of(b.as_str()).as_slice());
            if t.len() == 0 {
                assert(out@ =~= old(out)@ + section_text(title@, *body, fenced));
                return;
            }
            extend_str(out, "\n## ");
            extend_str(out, title);
            if fenced {
                extend_str(out, "\n\n```\n");
                extend_chars(out, t.as_slice());
                extend_str(out, "\n```\n");
            } else {
                extend_str(out, "\n\n");
                extend_chars(out, t.as_slice());
                out.push('\n');
            }
            assert(out@ =~= old(out)@ + section_text(title@, *body, fenced));
        },
    }
}

fn push_license(out: &mut Vec<char>, body: &Option<String>)
    ensures
        final(out)@ == old(out)@ + license_text(*body),
{
    match body {
        None => {
            assert(out@ =~= old(out)@ + license_text(*body));
        },
        Some(b) => {
            let t = trimmed(chars_of(b.as_str()).as_slice());
            if t.len() == 0 {
                assert(out@ =~= old(out)@ + license_text(*body));
                return;
            }
            extend_str(out, "\n## license\n\n");
            if t.len() > LICENSE_PREVIEW {
                let head = slice_chars(t.as_slice(), 0, LICENSE_PREVIEW);
                extend_chars(out, head.as_slice());
                extend_str(out, "\n\n… (truncated)\n");
            } else {
                extend_chars(out, t.as_slice());
                out.push('\n');
            }
            assert(out@ =~= old(out)@ + license_text(*body));
        },
    }
}

/// The markdown of the inspect pane for the selected model (if any) and
/// Ollama's answer about it (see `inspect_text`).
pub fn format_inspect(model: Option<&Model>, info: &ShowModelResponse) -> (r: String)
    ensures
        r@ == inspect_text(
            match model {
                Some(m) => Some(*m),
                None => None,
            },
            *info,
        ),
{
    let ghost m0 = match model {
        Some(m) => Some(*m),
        None => None,
    };
    let mut out: Vec<char> = Vec::new();
    extend_str(&mut out, "## summary\n\n");
    match model {
        Some(m) => {
            push_field(&mut out, "**name**  ", chars_of(m.name.as_str()).as_slice());
            let size = format_size(m.size);
            push_field(&mut out, "**size**  ", chars_of(size.as_str()).as_slice());
            match rfc3339_minutes(m.modified_at.as_str()) {
                Some(t) => push_field(&mut out, "**modified**  ", chars_of(t.as_str()).as_slice()),
                None => {},
            }
            match &m.details {
                Some(d) => push_details(&mut out, d),
                None => {},
            }
        },
        None => {},
    }
    assert(out@ =~= summary_text(m0));
    let ghost after_summary = out@;
    match &info.details {
        Some(d) => {
            extend_str(&mut out, "\n## ollama details\n\n");
            push_details(&mut out, d);
            match &d.families {
                Some(f) => {
                    if f.len() > 0 {
                        let sep = chars_of(", ");
                        let joined = join_editor_lines(f, sep.as_slice());
                        push_field(&mut out, "**families**  ", joined.as_slice());
                    }
                },
                None => {},
            }
        },
        None => {},
    }
    assert(out@ =~= after_summary + details_text(info.details));
    push_section(&mut out, "parameters", &info.parameters, false);
    push_section(&mut out, "template", &info.template, true);
    push_section(&mut out, "modelfile", &info.modelfile, true);
    push_license(&mut out, &info.license);
    assert(out@ =~= inspect_body(m0, *info));
    let check = trimmed(out.as_slice());
    if check.len() == 0 {
        return String::from_str("no metadata returned by ollama for this model\n");
    }
    string_of(out.as_slice())
}

/// The inspect pane's title: the model's short name (`—` when none is
/// selected, see `short_model_text` with 36 cells) and what the keys do.
pub fn inspect_title(model_name: Option<&str>, focused: bool) -> (r: String)
    ensures
        r@ == "inspect · "@ + short_model_text(
            match model_name {
                Some(n) => n@,
                None => "—"@,
            },
            36,
        ) + if focused {
            " · ↑↓ scroll · f3/esc close"@
        } else {
            " · tab focus · f3 close"@
        },
{
    let name = match model_name {
        Some(n) => n,
        None => "—",
    };
    let short = short_model(name, 36);
    let mut out = chars_of("inspect · ");
    extend_str(&mut out, short.as_str());
    if focused {
        extend_str(&mut out, " · ↑↓ scroll · f3/esc close");
    } else {
        extend_str(&mut out, " · tab focus · f3 close");
    }
    string_of(out.as_slice())
}

} // verus!
