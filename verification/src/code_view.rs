//! The syntax-highlighting language of a file, chosen by its extension.
use vstd::prelude::*;

use crate::paths::{extension, path_extension};
use crate::text::{ascii_lower_chars, ascii_lower_seq, chars_equal, chars_of};

verus! {

broadcast use vstd::string::group_string_axioms;

/// The language for an extension already folded to lower case; empty when
/// the extension is not known.
pub open spec fn language_for_extension(ext: Seq<char>) -> Seq<char> {
    if ext == "rs"@ {
        "rust"@
    } else if ext == "toml"@ {
        "toml"@
    } else if ext == "py"@ {
        "python"@
    } else if ext == "c"@ || ext == "h"@ || ext == "hpp"@ || ext == "cpp"@ || ext == "cc"@ || ext
        == "cxx"@ {
        "cpp"@
    } else if ext == "js"@ {
        "javascript"@
    } else if ext == "ts"@ {
        "typescript"@
    } else if ext == "json"@ {
        "json"@
    } else if ext == "yaml"@ || ext == "yml"@ {
        "yaml"@
    } else if ext == "md"@ || ext == "markdown"@ {
        "markdown"@
    } else if ext == "sh"@ || ext == "bash"@ || ext == "zsh"@ {
        "bash"@
    } else {
        ""@
    }
}

/// The language of a file: by its extension folded to ASCII lower case; empty
/// without a path, without an extension or for an unknown one.
pub open spec fn language_of_path(path: Option<Seq<char>>) -> Seq<char> {
    match path {
        None => ""@,
        Some(p) => language_for_extension(
            ascii_lower_seq(
                match path_extension(p) {
                    Some(e) => e,
                    None => Seq::empty(),
                },
            ),
        ),
    }
}

/// The language table: a file whose extension, folded to ASCII lower case,
/// is one of the known extensions gets that extension's language (`rs` Rust,
/// `toml`, `py` Python, `c`/`h`/`hpp`/`cpp`/`cc`/`cxx` C++, `js`
/// JavaScript, `ts` TypeScript, `json`, `yaml`/`yml`, `md`/`markdown`
/// Markdown, `sh`/`bash`/`zsh` Bash), whatever the case of the extension as
/// written; a path without an extension, or with any other extension,
/// gets none.
pub proof fn lemma_language_table(p: Seq<char>)
    ensures
        path_extension(p) matches Some(e) && ascii_lower_seq(e) == "rs"@
            ==> language_of_path(Some(p)) == "rust"@,
        path_extension(p) matches Some(e) && ascii_lower_seq(e) == "toml"@
            ==> language_of_path(Some(p)) == "toml"@,
        path_extension(p) matches Some(e) && ascii_lower_seq(e) == "py"@
            ==> language_of_path(Some(p)) == "python"@,
        path_extension(p) matches Some(e) && ascii_lower_seq(e) == "c"@
            ==> language_of_path(Some(p)) == "cpp"@,
        path_extension(p) matches Some(e) && ascii_lower_seq(e) == "h"@
            ==> language_of_path(Some(p)) == "cpp"@,
        path_extension(p) matches Some(e) && ascii_lower_seq(e) == "hpp"@
            ==> language_of_path(Some(p)) == "cpp"@,
        path_extension(p) matches Some(e) && ascii_lower_seq(e) == "cpp"@
            ==> language_of_path(Some(p)) == "cpp"@,
        path_extension(p) matches Some(e) && ascii_lower_seq(e) == "cc"@
            ==> language_of_path(Some(p)) == "cpp"@,
        path_extension(p) matches Some(e) && ascii_lower_seq(e) == "cxx"@
            ==> language_of_path(Some(p)) == "cpp"@,
        path_extension(p) matches Some(e) && ascii_lower_seq(e) == "js"@
            ==> language_of_path(Some(p)) == "javascript"@,
        path_extension(p) matches Some(e) && ascii_lower_seq(e) == "ts"@
            ==> language_of_path(Some(p)) == "typescript"@,
        path_extension(p) matches Some(e) && ascii_lower_seq(e) == "json"@
            ==> language_of_path(Some(p)) == "json"@,
        path_extension(p) matches Some(e) && ascii_lower_seq(e) == "yaml"@
            ==> language_of_path(Some(p)) == "yaml"@,
        path_extension(p) matches Some(e) && ascii_lower_seq(e) == "yml"@
            ==> language_of_path(Some(p)) == "yaml"@,
        path_extension(p) matches Some(e) && ascii_lower_seq(e) == "md"@
            ==> language_of_path(Some(p)) == "markdown"@,
        path_extension(p) matches Some(e) && ascii_lower_seq(e) == "markdown"@
            ==> language_of_path(Some(p)) == "markdown"@,
        path_extension(p) matches Some(e) && ascii_lower_seq(e) == "sh"@
            ==> language_of_path(Some(p)) == "bash"@,
        path_extension(p) matches Some(e) && ascii_lower_seq(e) == "bash"@
            ==> language_of_path(Some(p)) == "bash"@,
        path_extension(p) matches Some(e) && ascii_lower_seq(e) == "zsh"@
            ==> language_of_path(Some(p)) == "bash"@,
        path_extension(p) matches Some(e) && (ascii_lower_seq(e) != "rs"@
            && ascii_lower_seq(e) != "toml"@
            && ascii_lower_seq(e) != "py"@
            && ascii_lower_seq(e) != "c"@
            && ascii_lower_seq(e) != "h"@
            && ascii_lower_seq(e) != "hpp"@
            && ascii_lower_seq(e) != "cpp"@
            && ascii_lower_seq(e) != "cc"@
            && ascii_lower_seq(e) != "cxx"@
            && ascii_lower_seq(e) != "js"@
            && ascii_lower_seq(e) != "ts"@
            && ascii_lower_seq(e) != "json"@
            && ascii_lower_seq(e) != "yaml"@
            && ascii_lower_seq(e) != "yml"@
            && ascii_lower_seq(e) != "md"@
            && ascii_lower_seq(e) != "markdown"@
            && ascii_lower_seq(e) != "sh"@
            && ascii_lower_seq(e) != "bash"@
            && ascii_lower_seq(e) != "zsh"@) ==> language_of_path(Some(p)) == ""@,
        path_extension(p) is None ==> language_of_path(Some(p)) == ""@,
        language_of_path(None) == ""@,
{
    reveal_strlit("bash");
    reveal_strlit("c");
    reveal_strlit("cc");
    reveal_strlit("cpp");
    reveal_strlit("cxx");
    reveal_strlit("h");
    reveal_strlit("hpp");
    reveal_strlit("javascript");
    reveal_strlit("js");
    reveal_strlit("json");
    reveal_strlit("markdown");
    reveal_strlit("md");
    reveal_strlit("py");
    reveal_strlit("python");
    reveal_strlit("rs");
    reveal_strlit("rust");
    reveal_strlit("sh");
    reveal_strlit("toml");
    reveal_strlit("ts");
    reveal_strlit("typescript");
    reveal_strlit("yaml");
    reveal_strlit("yml");
    reveal_strlit("zsh");
    reveal_strlit("");
    assert(language_for_extension("rs"@) == "rust"@) by {
    }
    assert(language_for_extension("toml"@) == "toml"@) by {
        assert("toml"@.len() != "rs"@.len());
    }
    assert(language_for_extension("py"@) == "python"@) by {
        assert("py"@[0] != "rs"@[0]);
        assert("py"@.len() != "toml"@.len());
    }
    assert(language_for_extension("c"@) == "cpp"@) by {
        assert("c"@.len() != "rs"@.len());
        assert("c"@.len() != "toml"@.len());
        assert("c"@.len() != "py"@.len());
    }
    assert(language_for_extension("h"@) == "cpp"@) by {
        assert("h"@.len() != "rs"@.len());
        assert("h"@.len() != "toml"@.len());
        assert("h"@.len() != "py"@.len());
        assert("h"@[0] != "c"@[0]);
    }
    assert(language_for_extension("hpp"@) == "cpp"@) by {
        assert("hpp"@.len() != "rs"@.len());
        assert("hpp"@.len() != "toml"@.len());
        assert("hpp"@.len() != "py"@.len());
        assert("hpp"@.len() != "c"@.len());
        assert("hpp"@.len() != "h"@.len());
    }
    assert(language_for_extension("cpp"@) == "cpp"@) by {
        assert("cpp"@.len() != "rs"@.len());
        assert("cpp"@.len() != "toml"@.len());
        assert("cpp"@.len() != "py"@.len());
        assert("cpp"@.len() != "c"@.len());
        assert("cpp"@.len() != "h"@.len());
        assert("cpp"@[0] != "hpp"@[0]);
    }
    assert(language_for_extension("cc"@) == "cpp"@) by {
        assert("cc"@[0] != "rs"@[0]);
        assert("cc"@.len() != "toml"@.len());
        assert("cc"@[0] != "py"@[0]);
        assert("cc"@.len() != "c"@.len());
        assert("cc"@.len() != "h"@.len());
        assert("cc"@.len() != "hpp"@.len());
        assert("cc"@.len() != "cpp"@.len());
    }
    assert(language_for_extension("cxx"@) == "cpp"@) by {
        assert("cxx"@.len() != "rs"@.len());
        assert("cxx"@.len() != "toml"@.len());
        assert("cxx"@.len() != "py"@.len());
        assert("cxx"@.len() != "c"@.len());
        assert("cxx"@.len() != "h"@.len());
        assert("cxx"@[0] != "hpp"@[0]);
        assert("cxx"@[1] != "cpp"@[1]);
        assert("cxx"@.len() != "cc"@.len());
    }
    assert(language_for_extension("js"@) == "javascript"@) by {
        assert("js"@[0] != "rs"@[0]);
        assert("js"@.len() != "toml"@.len());
        assert("js"@[0] != "py"@[0]);
        assert("js"@.len() != "c"@.len());
        assert("js"@.len() != "h"@.len());
        assert("js"@.len() != "hpp"@.len());
        assert("js"@.len() != "cpp"@.len());
        assert("js"@[0] != "cc"@[0]);
        assert("js"@.len() != "cxx"@.len());
    }
    assert(language_for_extension("ts"@) == "typescript"@) by {
        assert("ts"@[0] != "rs"@[0]);
        assert("ts"@.len() != "toml"@.len());
        assert("ts"@[0] != "py"@[0]);
        assert("ts"@.len() != "c"@.len());
        assert("ts"@.len() != "h"@.len());
        assert("ts"@.len() != "hpp"@.len());
        assert("ts"@.len() != "cpp"@.len());
        assert("ts"@[0] != "cc"@[0]);
        assert("ts"@.len() != "cxx"@.len());
        assert("ts"@[0] != "js"@[0]);
    }
    assert(language_for_extension("json"@) == "json"@) by {
        assert("json"@.len() != "rs"@.len());
        assert("json"@[0] != "toml"@[0]);
        assert("json"@.len() != "py"@.len());
        assert("json"@.len() != "c"@.len());
        assert("json"@.len() != "h"@.len());
        assert("json"@.len() != "hpp"@.len());
        assert("json"@.len() != "cpp"@.len());
        assert("json"@.len() != "cc"@.len());
        assert("json"@.len() != "cxx"@.len());
        assert("json"@.len() != "js"@.len());
        assert("json"@.len() != "ts"@.len());
    }
    assert(language_for_extension("yaml"@) == "yaml"@) by {
        assert("yaml"@.len() != "rs"@.len());
        assert("yaml"@[0] != "toml"@[0]);
        assert("yaml"@.len() != "py"@.len());
        assert("yaml"@.len() != "c"@.len());
        assert("yaml"@.len() != "h"@.len());
        assert("yaml"@.len() != "hpp"@.len());
        assert("yaml"@.len() != "cpp"@.len());
        assert("yaml"@.len() != "cc"@.len());
        assert("yaml"@.len() != "cxx"@.len());
        assert("yaml"@.len() != "js"@.len());
        assert("yaml"@.len() != "ts"@.len());
        assert("yaml"@[0] != "json"@[0]);
    }
    assert(language_for_extension("yml"@) == "yaml"@) by {
        assert("yml"@.len() != "rs"@.len());
        assert("yml"@.len() != "toml"@.len());
        assert("yml"@.len() != "py"@.len());
        assert("yml"@.len() != "c"@.len());
        assert("yml"@.len() != "h"@.len());
        assert("yml"@[0] != "hpp"@[0]);
        assert("yml"@[0] != "cpp"@[0]);
        assert("yml"@.len() != "cc"@.len());
        assert("yml"@[0] != "cxx"@[0]);
        assert("yml"@.len() != "js"@.len());
        assert("yml"@.len() != "ts"@.len());
        assert("yml"@.len() != "json"@.len());
        assert("yml"@.len() != "yaml"@.len());
    }
    assert(language_for_extension("md"@) == "markdown"@) by {
        assert("md"@[0] != "rs"@[0]);
        assert("md"@.len() != "toml"@.len());
        assert("md"@[0] != "py"@[0]);
        assert("md"@.len() != "c"@.len());
        assert("md"@.len() != "h"@.len());
        assert("md"@.len() != "hpp"@.len());
        assert("md"@.len() != "cpp"@.len());
        assert("md"@[0] != "cc"@[0]);
        assert("md"@.len() != "cxx"@.len());
        assert("md"@[0] != "js"@[0]);
        assert("md"@[0] != "ts"@[0]);
        assert("md"@.len() != "json"@.len());
        assert("md"@.len() != "yaml"@.len());
        assert("md"@.len() != "yml"@.len());
    }
    assert(language_for_extension("markdown"@) == "markdown"@) by {
        assert("markdown"@.len() != "rs"@.len());
        assert("markdown"@.len() != "toml"@.len());
        assert("markdown"@.len() != "py"@.len());
        assert("markdown"@.len() != "c"@.len());
        assert("markdown"@.len() != "h"@.len());
        assert("markdown"@.len() != "hpp"@.len());
        assert("markdown"@.len() != "cpp"@.len());
        assert("markdown"@.len() != "cc"@.len());
        assert("markdown"@.len() != "cxx"@.len());
        assert("markdown"@.len() != "js"@.len());
        assert("markdown"@.len() != "ts"@.len());
        assert("markdown"@.len() != "json"@.len());
        assert("markdown"@.len() != "yaml"@.len());
        assert("markdown"@.len() != "yml"@.len());
        assert("markdown"@.len() != "md"@.len());
    }
    assert(language_for_extension("sh"@) == "bash"@) by {
        assert("sh"@[0] != "rs"@[0]);
        assert("sh"@.len() != "toml"@.len());
        assert("sh"@[0] != "py"@[0]);
        assert("sh"@.len() != "c"@.len());
        assert("sh"@.len() != "h"@.len());
        assert("sh"@.len() != "hpp"@.len());
        assert("sh"@.len() != "cpp"@.len());
        assert("sh"@[0] != "cc"@[0]);
        assert("sh"@.len() != "cxx"@.len());
        assert("sh"@[0] != "js"@[0]);
        assert("sh"@[0] != "ts"@[0]);
        assert("sh"@.len() != "json"@.len());
        assert("sh"@.len() != "yaml"@.len());
        assert("sh"@.len() != "yml"@.len());
        assert("sh"@[0] != "md"@[0]);
        assert("sh"@.len() != "markdown"@.len());
    }
    assert(language_for_extension("bash"@) == "bash"@) by {
        assert("bash"@.len() != "rs"@.len());
        assert("bash"@[0] != "toml"@[0]);
        assert("bash"@.len() != "py"@.len());
        assert("bash"@.len() != "c"@.len());
        assert("bash"@.len() != "h"@.len());
        assert("bash"@.len() != "hpp"@.len());
        assert("bash"@.len() != "cpp"@.len());
        assert("bash"@.len() != "cc"@.len());
        assert("bash"@.len() != "cxx"@.len());
        assert("bash"@.len() != "js"@.len());
        assert("bash"@.len() != "ts"@.len());
        assert("bash"@[0] != "json"@[0]);
        assert("bash"@[0] != "yaml"@[0]);
        assert("bash"@.len() != "yml"@.len());
        assert("bash"@.len() != "md"@.len());
        assert("bash"@.len() != "markdown"@.len());
        assert("bash"@.len() != "sh"@.len());
    }
    assert(language_for_extension("zsh"@) == "bash"@) by {
        assert("zsh"@.len() != "rs"@.len());
        assert("zsh"@.len() != "toml"@.len());
        assert("zsh"@.len() != "py"@.len());
        assert("zsh"@.len() != "c"@.len());
        assert("zsh"@.len() != "h"@.len());
        assert("zsh"@[0] != "hpp"@[0]);
        assert("zsh"@[0] != "cpp"@[0]);
        assert("zsh"@.len() != "cc"@.len());
        assert("zsh"@[0] != "cxx"@[0]);
        assert("zsh"@.len() != "js"@.len());
        assert("zsh"@.len() != "ts"@.len());
        assert("zsh"@.len() != "json"@.len());
        assert("zsh"@.len() != "yaml"@.len());
        assert("zsh"@[0] != "yml"@[0]);
        assert("zsh"@.len() != "md"@.len());
        assert("zsh"@.len() != "markdown"@.len());
        assert("zsh"@.len() != "sh"@.len());
        assert("zsh"@.len() != "bash"@.len());
    }
    assert(ascii_lower_seq(Seq::<char>::empty()) =~= Seq::<char>::empty());
}

/// The language depends on the extension alone and ignores its ASCII case:
/// two paths whose extensions agree after folding get the same language.
pub proof fn lemma_language_ignores_case(p: Seq<char>, q: Seq<char>)
    requires
        path_extension(p) is Some,
        path_extension(q) is Some,
        ascii_lower_seq(path_extension(p)->Some_0) == ascii_lower_seq(path_extension(q)->Some_0),
    ensures
        language_of_path(Some(p)) == language_of_path(Some(q)),
{
}

fn is_ext(ext: &Vec<char>, name: &str) -> (res: bool)
    ensures
        res == (ext@ == name@),
{
    chars_equal(ext, &chars_of(name))
}

/// The highlighting language for a file path.
pub fn language_from_path(path: Option<&str>) -> (res: &'static str)
    ensures
        res@ == language_of_path(
            match path {
                Some(p) => Some(p@),
                None => None,
            },
        ),
{
    let p = match path {
        None => return "",
        Some(p) => p,
    };
    let ext = match extension(p) {
        Some(e) => ascii_lower_chars(&e),
        None => {
            assert(ascii_lower_seq(Seq::<char>::empty()) =~= Seq::<char>::empty());
            Vec::new()
        },
    };
    if is_ext(&ext, "rs") {
        "rust"
    } else if is_ext(&ext, "toml") {
        "toml"
    } else if is_ext(&ext, "py") {
        "python"
    } else if is_ext(&ext, "c") || is_ext(&ext, "h") || is_ext(&ext, "hpp") || is_ext(&ext, "cpp")
        || is_ext(&ext, "cc") || is_ext(&ext, "cxx") {
        "cpp"
    } else if is_ext(&ext, "js") {
        "javascript"
    } else if is_ext(&ext, "ts") {
        "typescript"
    } else if is_ext(&ext, "json") {
        "json"
    } else if is_ext(&ext, "yaml") || is_ext(&ext, "yml") {
        "yaml"
    } else if is_ext(&ext, "md") || is_ext(&ext, "markdown") {
        "markdown"
    } else if is_ext(&ext, "sh") || is_ext(&ext, "bash") || is_ext(&ext, "zsh") {
        "bash"
    } else {
        ""
    }
}

} // verus!
