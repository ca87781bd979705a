//! The language adapters that traced files are read with: which languages
//! are known, the file extensions each accepts, and the textual test for a
//! declared symbol.
use vstd::prelude::*;

use crate::check::{Inspection, SymbolProbe, TraceProbe};
use crate::text::{contains, contains_seq, ends_with, is_suffix, lower_seq, str_eq, to_lower, trim, trim_seq, views};

verus! {

/// The adapter of a declared language, by name or alias in any ASCII case:
/// its canonical name and the extensions it accepts.
pub open spec fn adapter_spec(language: Seq<char>) -> Option<(Seq<char>, Seq<Seq<char>>)> {
    let l = lower_seq(language);
    if l == "rust"@ || l == "rs"@ {
        Some(("rust"@, seq!["rs"@]))
    } else if l == "python"@ || l == "py"@ {
        Some(("python"@, seq!["py"@]))
    } else if l == "typescript"@ || l == "ts"@ || l == "javascript"@ || l == "js"@ {
        Some(("typescript"@, seq!["ts"@, "tsx"@, "js"@, "jsx"@, "mjs"@, "cjs"@]))
    } else if l == "shell"@ || l == "sh"@ || l == "bash"@ {
        Some(("shell"@, seq!["sh"@, "bash"@]))
    } else if l == "yaml"@ || l == "yml"@ {
        Some(("yaml"@, seq!["yaml"@, "yml"@]))
    } else if l == "json"@ {
        Some(("json"@, seq!["json"@]))
    } else if l == "markdown"@ || l == "md"@ {
        Some(("markdown"@, seq!["md"@, "markdown"@]))
    } else if l == "gitignore"@ {
        Some(("gitignore"@, Seq::empty()))
    } else {
        None
    }
}

fn strings(items: &[&str]) -> (res: Vec<String>)
    ensures
        views(res@) == items@.map_values(|s: &str| s@),
{
    let mut out: Vec<String> = Vec::new();
    let mut i: usize = 0;
    while i < items.len()
        invariant
            i <= items@.len(),
            views(out@) == items@.take(i as int).map_values(|s: &str| s@),
        decreases items@.len() - i,
    {
        out.push(String::from_str(items[i]));
        assert(items@.take(i + 1).map_values(|s: &str| s@) =~= items@.take(i as int).map_values(|s: &str| s@).push(items@[i as int]@));
        assert(views(out@) =~= items@.take(i + 1).map_values(|s: &str| s@));
        i = i + 1;
    }
    assert(items@.take(items@.len() as int) =~= items@);
    out
}

fn adapter(name: &str, extensions: &[&str]) -> (res: Option<(String, Vec<String>)>)
    ensures
        res is Some,
        res->Some_0.0@ == name@,
        views(res->Some_0.1@) == extensions@.map_values(|s: &str| s@),
{
    Some((String::from_str(name), strings(extensions)))
}

/// The adapter of a declared language, if one is known.
pub fn adapter_for_language(language: &str) -> (res: Option<(String, Vec<String>)>)
    ensures
        match adapter_spec(language@) {
            Some((name, exts)) => res is Some && res->Some_0.0@ == name && views(res->Some_0.1@) == exts,
            None => res is None,
        },
{
    let lowered = to_lower(language);
    let l = lowered.as_str();
    if str_eq(l, "rust") || str_eq(l, "rs") {
        let r = adapter("rust", &["rs"]);
        assert(views(r->Some_0.1@) =~= seq!["rs"@]);
        r
    } else if str_eq(l, "python") || str_eq(l, "py") {
        let r = adapter("python", &["py"]);
        assert(views(r->Some_0.1@) =~= seq!["py"@]);
        r
    } else if str_eq(l, "typescript") || str_eq(l, "ts") || str_eq(l, "javascript") || str_eq(l, "js") {
        let r = adapter("typescript", &["ts", "tsx", "js", "jsx", "mjs", "cjs"]);
        assert(views(r->Some_0.1@) =~= seq!["ts"@, "tsx"@, "js"@, "jsx"@, "mjs"@, "cjs"@]);
        r
    } else if str_eq(l, "shell") || str_eq(l, "sh") || str_eq(l, "bash") {
        let r = adapter("shell", &["sh", "bash"]);
        assert(views(r->Some_0.1@) =~= seq!["sh"@, "bash"@]);
        r
    } else if str_eq(l, "yaml") || str_eq(l, "yml") {
        let r = adapter("yaml", &["yaml", "yml"]);
        assert(views(r->Some_0.1@) =~= seq!["yaml"@, "yml"@]);
        r
    } else if str_eq(l, "json") {
        let r = adapter("json", &["json"]);
        assert(views(r->Some_0.1@) =~= seq!["json"@]);
        r
    } else if str_eq(l, "markdown") || str_eq(l, "md") {
        let r = adapter("markdown", &["md", "markdown"]);
        assert(views(r->Some_0.1@) =~= seq!["md"@, "markdown"@]);
        r
    } else if str_eq(l, "gitignore") {
        let r = adapter("gitignore", &[]);
        assert(views(r->Some_0.1@) =~= Seq::<Seq<char>>::empty());
        r
    } else {
        None
    }
}

/// Whether an adapter accepts a file: the `gitignore` adapter takes a file
/// whose name ends in `.gitignore`, every other one a file whose extension
/// it lists.
pub open spec fn accepts_file_spec(name: Seq<char>, extensions: Seq<Seq<char>>, file_name: Option<Seq<char>>, extension: Option<Seq<char>>) -> bool {
    if name == "gitignore"@ {
        file_name is Some && is_suffix(".gitignore"@, file_name->Some_0)
    } else {
        extension is Some && extensions.contains(extension->Some_0)
    }
}

pub open spec fn opt_view(o: Option<&str>) -> Option<Seq<char>> {
    match o {
        Some(s) => Some(s@),
        None => None,
    }
}

pub fn adapter_accepts_file(name: &str, extensions: &Vec<String>, file_name: Option<&str>, extension: Option<&str>) -> (res: bool)
    ensures
        res == accepts_file_spec(name@, views(extensions@), opt_view(file_name), opt_view(extension)),
{
    if str_eq(name, "gitignore") {
        match file_name {
            Some(f) => ends_with(f, ".gitignore"),
            None => false,
        }
    } else {
        match extension {
            Some(e) => {
                let mut i: usize = 0;
                while i < extensions.len()
                    invariant
                        i <= extensions@.len(),
                        name@ != "gitignore"@,
                        opt_view(extension) == Some(e@),
                        forall|k: int| 0 <= k < i ==> (#[trigger] extensions@[k])@ != e@,
                    decreases extensions@.len() - i,
                {
                    if str_eq(extensions[i].as_str(), e) {
                        assert(views(extensions@)[i as int] == e@);
                        return true;
                    }
                    i = i + 1;
                }
                assert(!views(extensions@).contains(e@)) by {
                    if views(extensions@).contains(e@) {
                        let k = choose|k: int| 0 <= k < views(extensions@).len() && views(extensions@)[k] == e@;
                        assert(extensions@[k]@ == e@);
                    }
                }
                false
            },
            None => false,
        }
    }
}

/// The textual test for a declared symbol: the file's text holds the
/// symbol, without its surrounding whitespace.
pub fn symbol_pattern_match(contents: &str, symbol: &str) -> (res: bool)
    ensures
        res == contains_seq(contents@, trim_seq(symbol@)),
{
    let t = trim(symbol);
    contains(contents, t.as_str())
}

/// What is known of a traced file before any rich inspection: whether its
/// language has an adapter (whose name, or else the declared language, is
/// reported), whether the adapter accepts the file, and, for each declared
/// symbol, whether the file's text holds it.
pub fn trace_probe(
    language: &str,
    is_file: bool,
    file_name: Option<&str>,
    extension: Option<&str>,
    contents: Result<String, String>,
    symbols: &Vec<String>,
) -> (res: TraceProbe)
    ensures
        res.language_supported == adapter_spec(language@) is Some,
        res.adapter_name@ == match adapter_spec(language@) {
            Some((name, _)) => name,
            None => language@,
        },
        res.extension_matches == match adapter_spec(language@) {
            Some((name, exts)) => accepts_file_spec(name, exts, opt_view(file_name), opt_view(extension)),
            None => false,
        },
        res.is_file == is_file,
        res.contents == contents,
        res.symbols@.len() == symbols@.len(),
        forall|i: int| 0 <= i < symbols@.len() ==> (#[trigger] res.symbols@[i]).inspection == Inspection::Absent
            && res.symbols@[i].pattern_match == match contents {
                Ok(text) => contains_seq(text@, trim_seq(symbols@[i]@)),
                Err(_) => false,
            },
{
    let (language_supported, adapter_name, extension_matches) = match adapter_for_language(language) {
        Some((name, exts)) => {
            let accepted = adapter_accepts_file(name.as_str(), &exts, file_name, extension);
            (true, name, accepted)
        },
        None => (false, String::from_str(language), false),
    };
    let mut probes: Vec<SymbolProbe> = Vec::new();
    let mut i: usize = 0;
    while i < symbols.len()
        invariant
            i <= symbols@.len(),
            probes@.len() == i,
            forall|k: int| 0 <= k < i ==> (#[trigger] probes@[k]).inspection == Inspection::Absent
                && probes@[k].pattern_match == match contents {
                    Ok(text) => contains_seq(text@, trim_seq(symbols@[k]@)),
                    Err(_) => false,
                },
        decreases symbols@.len() - i,
    {
        let found = match &contents {
            Ok(text) => symbol_pattern_match(text.as_str(), symbols[i].as_str()),
            Err(_) => false,
        };
        probes.push(SymbolProbe { inspection: Inspection::Absent, pattern_match: found });
        i = i + 1;
    }
    TraceProbe { language_supported, adapter_name, is_file, extension_matches, contents, symbols: probes }
}

} // verus!
