use crate::text::chars_of;
use crate::text_map::chars_equal;
use vstd::prelude::*;

verus! {

/// The two kinds of program that can be run.
#[derive(Debug, Clone, Copy, PartialEq, Eq, Structural)]
pub enum ProgramType {
    /// LLVM IR (`.ll`), compiled to a native library before it runs.
    QIR,
    /// A `PHIR/JSON` program (`.json`).
    PHIR,
}

/// The kind of a program file, decided by its extension and, for `.json`, by the
/// `format` field that the file holds.
pub open spec fn program_type_of(extension: Option<Seq<char>>, json_format: Option<Seq<char>>) -> Result<
    ProgramType,
    Seq<char>,
> {
    match extension {
        Some(e) => if e == "json"@ {
            if json_format == Some("PHIR/JSON"@) {
                Ok(ProgramType::PHIR)
            } else {
                Err("Invalid JSON format - expected PHIR/JSON"@)
            }
        } else if e == "ll"@ {
            Ok(ProgramType::QIR)
        } else {
            Err("Unsupported file format. Expected .ll or .json"@)
        },
        None => Err("Unsupported file format. Expected .ll or .json"@),
    }
}

/// The text of an optional string slice.
pub open spec fn opt_text(o: Option<&str>) -> Option<Seq<char>> {
    match o {
        Some(s) => Some(s@),
        None => None,
    }
}

/// Whether `s` is the text `t`.
fn text_is(s: &str, t: &str) -> (b: bool)
    ensures
        b == (s@ == t@),
{
    chars_equal(&chars_of(s), &chars_of(t))
}

/// Decides the kind of a program file from its extension and, where the extension is
/// `json`, the `format` field of the file (`None` where it has none).
pub fn program_type(extension: Option<&str>, json_format: Option<&str>) -> (r: Result<
    ProgramType,
    String,
>)
    ensures
        match r {
            Ok(k) => program_type_of(opt_text(extension), opt_text(json_format)) == Ok::<
                ProgramType,
                Seq<char>,
            >(k),
            Err(m) => program_type_of(opt_text(extension), opt_text(json_format)) == Err::<
                ProgramType,
                Seq<char>,
            >(m@),
        },
{
    match extension {
        Some(e) => {
            if text_is(e, "json") {
                let phir = match json_format {
                    Some(f) => text_is(f, "PHIR/JSON"),
                    None => false,
                };
                if phir {
                    Ok(ProgramType::PHIR)
                } else {
                    Err("Invalid JSON format - expected PHIR/JSON".to_string())
                }
            } else if text_is(e, "ll") {
                Ok(ProgramType::QIR)
            } else {
                Err("Unsupported file format. Expected .ll or .json".to_string())
            }
        },
        None => Err("Unsupported file format. Expected .ll or .json".to_string()),
    }
}

} // verus!
