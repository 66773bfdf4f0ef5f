//! How the app-server process is started: its arguments and its environment.

use vstd::prelude::*;
use vstd::utf8::is_ascii_chars;

use crate::text::ascii_upper;
use crate::text::has_prefix;
use crate::text::has_suffix;
use crate::text::no_text;
use crate::text::option_text;
use crate::text::string_texts;
use crate::trusted::to_uppercase;
use crate::trusted::uppercase_text;
use super::CodexAppServerDriver;

verus! {

/// The arguments of the app-server command.
pub open spec fn server_args() -> Seq<Seq<char>> {
    seq!["app-server"@, "--listen"@, "stdio://"@]
}

/// Variables that are never handed to the app-server.
pub open spec fn sensitive_names() -> Seq<Seq<char>> {
    seq![
        "OPENAI_API_KEY"@,
        "ANTHROPIC_API_KEY"@,
        "GEMINI_API_KEY"@,
        "GOOGLE_API_KEY"@,
        "GROQ_API_KEY"@,
        "DEEPSEEK_API_KEY"@,
        "MISTRAL_API_KEY"@,
        "TOGETHER_API_KEY"@,
        "FIREWORKS_API_KEY"@,
        "OPENROUTER_API_KEY"@,
        "PERPLEXITY_API_KEY"@,
        "COHERE_API_KEY"@,
        "AI21_API_KEY"@,
        "CEREBRAS_API_KEY"@,
        "SAMBANOVA_API_KEY"@,
        "HUGGINGFACE_API_KEY"@,
        "XAI_API_KEY"@,
        "REPLICATE_API_TOKEN"@,
        "BRAVE_API_KEY"@,
        "TAVILY_API_KEY"@,
        "ELEVENLABS_API_KEY"@,
    ]
}

/// The upper-case form of a text; ASCII text maps letter by letter.
pub open spec fn upper_text(s: Seq<char>) -> Seq<char> {
    if is_ascii_chars(s) {
        s.map_values(|c: char| ascii_upper(c))
    } else {
        uppercase_text(s)
    }
}

/// A variable that holds a secret by its ending, in any case, and is not one of
/// the Codex CLI's own.
pub open spec fn secret_by_ending(name: Seq<char>) -> bool {
    &&& !"CODEX_"@.is_prefix_of(name)
    &&& ("_SECRET"@.is_suffix_of(upper_text(name)) || "_TOKEN"@.is_suffix_of(upper_text(name))
        || "_PASSWORD"@.is_suffix_of(upper_text(name)))
}

/// The variables with a secret's ending, in order.
pub open spec fn secrets_among(names: Seq<Seq<char>>) -> Seq<Seq<char>>
    decreases names.len(),
{
    if names.len() == 0 {
        seq![]
    } else if secret_by_ending(names.last()) {
        secrets_among(names.drop_last()).push(names.last())
    } else {
        secrets_among(names.drop_last())
    }
}

/// The variables that the app-server does not get, of those that are set.
pub open spec fn withheld(names: Seq<Seq<char>>) -> Seq<Seq<char>> {
    sensitive_names() + secrets_among(names)
}

/// Whether a variable holds a secret by its ending.
fn is_secret_by_ending(name: &str) -> (r: bool)
    ensures
        r == secret_by_ending(name@),
{
    if has_prefix(name, "CODEX_") {
        return false;
    }
    let upper: String = to_uppercase(name);
    has_suffix(upper.as_str(), "_SECRET") || has_suffix(upper.as_str(), "_TOKEN") || has_suffix(
        upper.as_str(),
        "_PASSWORD",
    )
}

/// The variables that are never handed to the app-server.
fn sensitive_list() -> (r: Vec<String>)
    ensures
        string_texts(r@) == sensitive_names(),
{
    let mut v: Vec<String> = Vec::new();
    v.push("OPENAI_API_KEY".to_owned());
    v.push("ANTHROPIC_API_KEY".to_owned());
    v.push("GEMINI_API_KEY".to_owned());
    v.push("GOOGLE_API_KEY".to_owned());
    v.push("GROQ_API_KEY".to_owned());
    v.push("DEEPSEEK_API_KEY".to_owned());
    v.push("MISTRAL_API_KEY".to_owned());
    v.push("TOGETHER_API_KEY".to_owned());
    v.push("FIREWORKS_API_KEY".to_owned());
    v.push("OPENROUTER_API_KEY".to_owned());
    v.push("PERPLEXITY_API_KEY".to_owned());
    v.push("COHERE_API_KEY".to_owned());
    v.push("AI21_API_KEY".to_owned());
    v.push("CEREBRAS_API_KEY".to_owned());
    v.push("SAMBANOVA_API_KEY".to_owned());
    v.push("HUGGINGFACE_API_KEY".to_owned());
    v.push("XAI_API_KEY".to_owned());
    v.push("REPLICATE_API_TOKEN".to_owned());
    v.push("BRAVE_API_KEY".to_owned());
    v.push("TAVILY_API_KEY".to_owned());
    v.push("ELEVENLABS_API_KEY".to_owned());
    assert(string_texts(v@) =~= sensitive_names());
    v
}

impl CodexAppServerDriver {
    /// The arguments of the app-server command.
    pub fn spawn_args() -> (r: Vec<String>)
        ensures
            string_texts(r@) == server_args(),
    {
        let mut v: Vec<String> = Vec::new();
        v.push("app-server".to_owned());
        v.push("--listen".to_owned());
        v.push("stdio://".to_owned());
        assert(string_texts(v@) =~= server_args());
        v
    }

    /// The variables to take out of the app-server's environment, where `names`
    /// are those that are set.
    pub fn apply_env_filter(names: &Vec<String>) -> (r: Vec<String>)
        ensures
            string_texts(r@) == withheld(string_texts(names@)),
    {
        let mut out: Vec<String> = sensitive_list();
        let ghost all = string_texts(names@);
        let n: usize = names.len();
        let mut i: usize = 0;
        assert(string_texts(out@) =~= sensitive_names() + secrets_among(all.take(0)));
        while i < n
            invariant
                n == names@.len(),
                i <= n,
                all == string_texts(names@),
                string_texts(out@) == sensitive_names() + secrets_among(all.take(i as int)),
            decreases n - i,
        {
            assert(all.take(i + 1).drop_last() =~= all.take(i as int));
            assert(all.take(i + 1).last() == names@[i as int]@);
            if is_secret_by_ending(names[i].as_str()) {
                let ghost before = out@;
                let name: String = names[i].as_str().to_owned();
                out.push(name);
                assert(string_texts(out@) =~= string_texts(before).push(name@));
                assert(string_texts(out@) =~= sensitive_names() + secrets_among(
                    all.take(i + 1),
                ));
            }
            i = i + 1;
        }
        assert(all.take(n as int) =~= all);
        out
    }
}

/// A text that is there and not empty.
pub open spec fn filled(s: Option<Seq<char>>) -> Option<Seq<char>> {
    match s {
        Some(t) => if t.len() == 0 {
            None
        } else {
            Some(t)
        },
        None => None,
    }
}

/// The user's home directory, by the values of `HOME` and `USERPROFILE`.
pub fn home_dir(home: Option<String>, userprofile: Option<String>) -> (r: Option<String>)
    ensures
        option_text(r) == match filled(option_text(home)) {
            Some(dir) => Some(dir),
            None => filled(option_text(userprofile)),
        },
{
    if let Some(dir) = home {
        if !no_text(dir.as_str()) {
            return Some(dir);
        }
    }
    if let Some(dir) = userprofile {
        if !no_text(dir.as_str()) {
            return Some(dir);
        }
    }
    None
}

} // verus!
