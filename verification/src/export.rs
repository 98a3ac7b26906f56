use vstd::prelude::*;

verus! {

/// The character map `replace_char` performs: every occurrence of `from`
/// becomes `to`, everything else stays in place.
pub open spec fn spec_replaced(s: Seq<char>, from: char, to: char) -> Seq<char> {
    s.map(|i: int, c: char| if c == from { to } else { c })
}

/// Relies on `str::replace` with a one-character pattern and a
/// one-character replacement: every match of `from` is replaced by `to`,
/// so the result is the character-for-character map of the input.
#[verifier::external_body]
fn replace_char(s: &str, from: char, to: char) -> (r: String)
    ensures
        r@ == spec_replaced(s@, from, to),
{
    s.replace(from, &to.to_string())
}

/// The file-name suffix contributed by a colour label: an underscore plus
/// the label with its spaces made underscores; no label, no suffix.
pub open spec fn spec_color_suffix(color: Option<Seq<char>>) -> Seq<char> {
    match color {
        Some(name) => "_"@ + spec_replaced(name, ' ', '_'),
        None => Seq::empty(),
    }
}

/// The file name one exported channel is written under:
/// `{base}_{channel}[_{label}].{ext}`, the label sanitised for file systems.
pub fn export_file_name(base: &str, channel: &str, color: Option<&str>, ext: &str) -> (r: String)
    ensures
        r@ == base@ + "_"@ + channel@ + spec_color_suffix(
            match color {
                Some(c) => Some(c@),
                None => None,
            },
        ) + "."@ + ext@,
{
    let mut name = String::from_str(base);
    name.append("_");
    name.append(channel);
    match color {
        Some(c) => {
            name.append("_");
            let sanitised = replace_char(c, ' ', '_');
            name.append(sanitised.as_str());
        },
        None => {},
    }
    name.append(".");
    name.append(ext);
    name
}

/// The text label of one page of the composed document:
/// `Channel: {channel}[ - {label}]`.
pub fn page_label(channel: &str, color: Option<&str>) -> (r: String)
    ensures
        r@ == "Channel: "@ + channel@ + (match color {
            Some(c) => " - "@ + c@,
            None => Seq::<char>::empty(),
        }),
{
    let mut label = String::from_str("Channel: ");
    label.append(channel);
    match color {
        Some(c) => {
            label.append(" - ");
            label.append(c);
        },
        None => {},
    }
    label
}

} // verus!
