//! The model table of the models tab: the text of each cell, and which
//! quantisation a row shows.
use vstd::prelude::*;

use crate::inspect::{modified_label, modified_text};
use crate::modelfile::{
    label, parameter_size_parts, parse_quantization_bits, parts_view, quant_bits, sanitize_model_name, sanitized_name,
    size_parts, SizeUnit,
};
use crate::styles::sort_mark;
use crate::sorting::SortColumn;
use crate::text::{
    char_at_byte, char_index_of_byte, chars_of, contains_chars, contains_seq, extend_str, find_chars, find_seq, lower_case,
    matches_at, push_decimal, decimal, slice_chars, str_equal, string_of, to_lower_case, to_upper_case,
    upper_case, utf8_len, utf8_offset, copy_string,
};
use crate::types::Model;
use crate::vram::{format_size, size_text};

verus! {

// ---------------------------------------------------------------------------
// Quantisation column

/// How the model name changes the quantisation shown: `Some(None)` keeps
/// the reported label, `Some(Some(l))` shows `l`, `None` is a name on which
/// the byte slice of the name would panic.
///
/// On the upper-cased name: the tag after the first `:` is shown when it
/// holds `Q`, `MXFP` or `IQ`; otherwise, with a `-Q` in it, the name from
/// the byte after that `-` on; a name without `:` holding `Q4_K_M` shows
/// `Q4_K_M`.
pub open spec fn tag_label(name: Seq<char>) -> Option<Option<Seq<char>>> {
    let up = upper_case(name);
    match find_seq(up, seq![':']) {
        Some(j) => {
            let tag = up.skip(j + 1);
            if contains_seq(tag, seq!['Q']) || contains_seq(tag, "MXFP"@) || contains_seq(tag, "IQ"@) {
                Some(Some(tag))
            } else {
                match find_seq(up, "-Q"@) {
                    Some(k) => match char_at_byte(name, utf8_len(up.take(k)) + 1) {
                        Some(m) => Some(Some(name.skip(m))),
                        None => None,
                    },
                    None => Some(None),
                }
            }
        },
        None => if contains_seq(up, "Q4_K_M"@) {
            Some(Some("Q4_K_M"@))
        } else {
            Some(None)
        },
    }
}

/// The quantisation label and bits (hundredths of a bit) a row shows, from
/// the model's name and the label Ollama reported (`—` when none). When the
/// reported label gives no bits, or is `unknown`, and the name gives bits,
/// those bits are used and the label may be taken from the name (see
/// `tag_label`). `None` where the name would make the table panic.
pub open spec fn quant_column_for(name: Seq<char>, reported: Option<Seq<char>>) -> Option<(Seq<char>, Option<u32>)> {
    let q0 = match reported {
        Some(q) => q,
        None => "—"@,
    };
    let b0 = quant_bits(label(q0));
    let from_name = quant_bits(label(name));
    if (b0 is None || q0 == "unknown"@) && from_name is Some {
        match tag_label(name) {
            None => None,
            Some(None) => Some((q0, from_name)),
            Some(Some(l)) => Some((l, from_name)),
        }
    } else {
        Some((q0, b0))
    }
}

fn tag_label_exec(name: &str) -> (r: Option<Option<Vec<char>>>)
    ensures
        match r {
            None => tag_label(name@) is None,
            Some(None) => tag_label(name@) == Some(None::<Seq<char>>),
            Some(Some(l)) => tag_label(name@) == Some(Some(l@)),
        },
{
    let up_s = to_upper_case(name);
    let up = chars_of(up_s.as_str());
    let colon = vec![':'];
    assert(colon@ =~= seq![':']);
    match find_chars(up.as_slice(), colon.as_slice()) {
        Some(j) => {
            assert(matches_at(up@, colon@, j as int));
            let n = up.len();
            assert(j + 1 <= n);
            let tag = slice_chars(up.as_slice(), j + 1, n);
            assert(tag@ =~= up@.skip(j + 1));
            let q = vec!['Q'];
            assert(q@ =~= seq!['Q']);
            let mxfp = chars_of("MXFP");
            let iq = chars_of("IQ");
            if contains_chars(tag.as_slice(), q.as_slice()) || contains_chars(tag.as_slice(), mxfp.as_slice())
                || contains_chars(tag.as_slice(), iq.as_slice()) {
                return Some(Some(tag));
            }
            let dash_q = chars_of("-Q");
            match find_chars(up.as_slice(), dash_q.as_slice()) {
                Some(k) => {
                    assert(matches_at(up@, dash_q@, k as int));
                    let b = utf8_offset(up.as_slice(), k) + 1;
                    let all = chars_of(name);
                    match char_index_of_byte(all.as_slice(), b) {
                        Some(m) => {
                            let rest = slice_chars(all.as_slice(), m, all.len());
                            assert(rest@ =~= name@.skip(m as int));
                            Some(Some(rest))
                        },
                        None => None,
                    }
                },
                None => Some(None),
            }
        },
        None => {
            let q4 = chars_of("Q4_K_M");
            if contains_chars(up.as_slice(), q4.as_slice()) {
                Some(Some(q4))
            } else {
                Some(None)
            }
        },
    }
}

/// The text of an optional string slice.
pub open spec fn str_opt(o: Option<&str>) -> Option<Seq<char>> {
    match o {
        Some(q) => Some(q@),
        None => None,
    }
}

/// The quantisation label and bits a row shows (see `quant_column_for`);
/// `None` where the table would panic on the name.
pub fn quant_column(name: &str, reported: Option<&str>) -> (r: Option<(String, Option<u32>)>)
    ensures
        match r {
            None => quant_column_for(name@, str_opt(reported)) is None,
            Some((l, b)) => quant_column_for(name@, str_opt(reported)) == Some((l@, b)),
        },
{
    let q0: String = match reported {
        Some(q) => String::from_str(q),
        None => String::from_str("—"),
    };
    let b0 = parse_quantization_bits(q0.as_str());
    let unknown = str_equal(q0.as_str(), "unknown");
    let from_name = parse_quantization_bits(name);
    if (b0.is_none() || unknown) && from_name.is_some() {
        match tag_label_exec(name) {
            None => None,
            Some(None) => Some((q0, from_name)),
            Some(Some(l)) => Some((string_of(l.as_slice()), from_name)),
        }
    } else {
        Some((q0, b0))
    }
}

// ---------------------------------------------------------------------------
// Rows

/// The cells of a table row. `param_parts` (number and unit of the
/// parameter label) and `quant_bits` (hundredths of a bit) feed the memory
/// estimate; `modified` is there when the inspect
/// pane is closed.
pub struct ModelRow {
    pub number: String,
    pub name: String,
    pub family: String,
    pub size: String,
    pub quant: String,
    pub params: String,
    pub param_parts: Option<(String, SizeUnit)>,
    pub quant_bits: Option<u32>,
    pub modified: Option<String>,
}

/// A model's name as the table shows it: its display name in lower case.
pub open spec fn row_name(name: Seq<char>) -> Seq<char> {
    lower_case(sanitized_name(name))
}

/// The parameter label a row shows (`—` when Ollama reported none).
pub open spec fn row_params(m: Model) -> Seq<char> {
    match m.details {
        Some(d) => d.parameter_size@,
        None => "—"@,
    }
}

/// The quantisation label Ollama reported, if any.
pub open spec fn reported_quant(m: Model) -> Option<Seq<char>> {
    match m.details {
        Some(d) => Some(d.quantization_level@),
        None => None,
    }
}

/// Is `r` the row for model `m` at index `i`, with the inspect pane open or
/// not?
pub open spec fn is_row(r: ModelRow, i: nat, m: Model, show_info: bool) -> bool {
    &&& r.number@ == decimal(i + 1)
    &&& r.name@ == row_name(m.name@)
    &&& r.family@ == match m.details {
        Some(d) => d.family@,
        None => "—"@,
    }
    &&& r.size@ == size_text(m.size as nat)
    &&& r.params@ == row_params(m)
    &&& parts_view(r.param_parts) == size_parts(label(row_params(m)))
    &&& quant_column_for(m.name@, reported_quant(m)) == Some((r.quant@, r.quant_bits))
    &&& if show_info {
        r.modified is None
    } else {
        r.modified matches Some(t) && t@ == modified_text(m.modified_at@)
    }
}

/// The row for model `m`, number `i + 1`; `None` where the table would
/// panic on the model's name (see `tag_label`).
pub fn model_row(i: usize, m: &Model, show_info: bool) -> (r: Option<ModelRow>)
    requires
        i < u64::MAX,
    ensures
        match r {
            Some(row) => is_row(row, i as nat, *m, show_info),
            None => quant_column_for(m.name@, reported_quant(*m)) is None,
        },
{
    let reported: Option<&str> = match &m.details {
        Some(d) => Some(d.quantization_level.as_str()),
        None => None,
    };
    let (quant, bits) = match quant_column(m.name.as_str(), reported) {
        Some(q) => q,
        None => {
            return None;
        },
    };
    let mut number: Vec<char> = Vec::new();
    push_decimal(&mut number, (i as u64) + 1);
    let params: String = match &m.details {
        Some(d) => copy_string(&d.parameter_size),
        None => String::from_str("—"),
    };
    let family: String = match &m.details {
        Some(d) => copy_string(&d.family),
        None => String::from_str("—"),
    };
    let display = sanitize_model_name(m.name.as_str());
    let parts = parameter_size_parts(params.as_str());
    let modified = if show_info {
        None
    } else {
        Some(modified_label(m.modified_at.as_str()))
    };
    let row = ModelRow {
        number: string_of(number.as_slice()),
        name: to_lower_case(display.as_str()),
        family,
        size: format_size(m.size),
        quant,
        params,
        param_parts: parts,
        quant_bits: bits,
        modified,
    };
    proof {
        assert(number@ =~= decimal((i + 1) as nat));
        assert(str_opt(reported) == reported_quant(*m));
    }
    Some(row)
}

/// A column heading: the label and the sort mark (`▾` on the sorted column).
pub fn header_label(name: &str, column: SortColumn, active: SortColumn) -> (r: String)
    ensures
        r@ == name@ + (if column == active {
            "▾"@
        } else {
            " "@
        }),
{
    let mark = sort_mark(column == active, true);
    let mut out = chars_of(name);
    extend_str(&mut out, mark);
    string_of(out.as_slice())
}

/// The table's title for `n` models: with the inspect pane open
/// `models · n · f3/esc close inspect`, else `models` when there are none
/// and `models · n · f3 inspect` otherwise.
pub fn table_title(n: usize, show_info: bool) -> (r: String)
    ensures
        r@ == if show_info {
            "models · "@ + decimal(n as nat) + " · f3/esc close inspect"@
        } else if n == 0 {
            "models"@
        } else {
            "models · "@ + decimal(n as nat) + " · f3 inspect"@
        },
{
    if !show_info && n == 0 {
        return String::from_str("models");
    }
    let mut out = chars_of("models · ");
    push_decimal(&mut out, n as u64);
    if show_info {
        extend_str(&mut out, " · f3/esc close inspect");
    } else {
        extend_str(&mut out, " · f3 inspect");
    }
    string_of(out.as_slice())
}

} // verus!
