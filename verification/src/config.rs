//! Persistent settings contain no credentials. A session freezes non-secret
//! settings.

use crate::failure::Failure;
use crate::paths::{join, path_in};
use crate::text::{
    all_white, chars_of, is_trim, line_break, one_line, same_text, text_of, to_text, trim,
    trimmed, trimming_takes_off_the_padding, white_space,
};
use std::collections::BTreeMap;
use vstd::prelude::*;
use vstd::slice::slice_subrange;
use vstd::string::*;

verus! {

broadcast use vstd::string::group_string_axioms;

/// `serde_json::Value`: a setting that TextSpill does not know, kept as it is.
#[verifier::external_type_specification]
#[verifier::external_body]
pub struct ExValue(serde_json::Value);

/// Who transcribes.
#[derive(Clone, Copy, Debug, PartialEq, Eq, Structural)]
pub enum Backend {
    Local,
    Deepgram,
}

impl Default for Backend {
    fn default() -> (backend: Backend)
        ensures
            backend == Backend::Local,
    {
        Backend::Local
    }
}

impl Backend {
    /// The word that stands for it in the settings.
    pub open spec fn word(self) -> Seq<char> {
        match self {
            Backend::Local => "local"@,
            Backend::Deepgram => "deepgram"@,
        }
    }

    pub fn as_str(self) -> (word: &'static str)
        ensures
            word@ == self.word(),
    {
        match self {
            Backend::Local => "local",
            Backend::Deepgram => "deepgram",
        }
    }
}

/// The settings.
pub struct Config {
    pub backend: Backend,
    pub deepgram_language: String,
    /// Settings that TextSpill does not know.
    pub extra: BTreeMap<String, serde_json::Value>,
}

impl Default for Config {
    fn default() -> (config: Config)
        ensures
            config.is_default(),
    {
        Config {
            backend: Backend::Local,
            deepgram_language: to_text("sv"),
            extra: BTreeMap::new(),
        }
    }
}

/// What reading a stored value came to.
pub enum Stored<T> {
    /// There is no such file.
    Missing,
    /// It cannot be read.
    Unreadable(String),
    /// It can be read, but holds no such value.
    Malformed(String),
    Value(T),
}

/// `deepgram_language` may be this.
pub open spec fn known_language(language: Seq<char>) -> bool {
    language == "sv"@ || language == "en"@
}

/// The backend of a `TEXTSPILL_BACKEND` that is set.
pub open spec fn backend_named(word: Seq<char>) -> Option<Backend> {
    if word == "local"@ {
        Some(Backend::Local)
    } else if word == "deepgram"@ {
        Some(Backend::Deepgram)
    } else {
        None
    }
}

/// What the settings file comes to.
pub open spec fn reads_settings(stored: Stored<Config>, config: Result<Config, Failure>) -> bool {
    match stored {
        Stored::Value(value) => config == Ok::<Config, Failure>(value),
        Stored::Missing => config matches Ok(config) && config.is_default(),
        Stored::Malformed(cause) => config == Err::<Config, Failure>(
            Failure::MalformedConfig { cause },
        ),
        Stored::Unreadable(cause) => config == Err::<Config, Failure>(
            Failure::UnreadableConfig { cause },
        ),
    }
}

/// What the settings and what the environment overrides come to.
pub open spec fn settles_on(
    before: Config,
    backend: Option<Seq<char>>,
    language: Option<Seq<char>>,
    key: KeySource,
    config: Result<Config, Failure>,
) -> bool {
    let chosen = match backend {
        Some(word) => backend_named(word),
        None => Some(before.backend),
    };
    let spoken = match language {
        Some(language) => language,
        None => before.deepgram_language@,
    };
    match chosen {
        None => config == Err::<Config, Failure>(Failure::UnknownBackend),
        Some(chosen) => if chosen == Backend::Deepgram && !known_language(spoken) {
            config == Err::<Config, Failure>(Failure::UnknownLanguage)
        } else if chosen == Backend::Deepgram && key_result(key) is Err {
            config == Err::<Config, Failure>(key_result(key)->Err_0)
        } else {
            &&& config matches Ok(config)
            &&& config.backend == chosen
            &&& config.deepgram_language@ == spoken
            &&& config.extra == before.extra
        },
    }
}

impl Config {
    /// The settings of an installation without a settings file.
    pub open spec fn is_default(self) -> bool {
        &&& self.backend == Backend::Local
        &&& self.deepgram_language@ == "sv"@
        &&& self.extra@ == Map::<String, serde_json::Value>::empty()
    }

    /// The settings, from what the settings file came to.
    pub fn read(stored: Stored<Config>) -> (config: Result<Config, Failure>)
        ensures
            reads_settings(stored, config),
    {
        match stored {
            Stored::Value(value) => Ok(value),
            Stored::Missing => Ok(Config::default()),
            Stored::Malformed(cause) => Err(Failure::MalformedConfig { cause }),
            Stored::Unreadable(cause) => Err(Failure::UnreadableConfig { cause }),
        }
    }

    /// The settings with what the environment overrides: `backend` and
    /// `language` are `TEXTSPILL_BACKEND` and `TEXTSPILL_DEEPGRAM_LANGUAGE`,
    /// where set; `key` is where the API key is looked for. Deepgram is only
    /// settled on with a known language and a usable key.
    pub fn effective(
        self,
        backend: Option<&str>,
        language: Option<&str>,
        key: KeySource,
    ) -> (config: Result<Config, Failure>)
        ensures
            settles_on(
                self,
                match backend {
                    Some(word) => Some(word@),
                    None => None,
                },
                match language {
                    Some(language) => Some(language@),
                    None => None,
                },
                key,
                config,
            ),
    {
        let mut config = self;
        if let Some(word) = backend {
            if same_text(word, "local") {
                config.backend = Backend::Local;
            } else if same_text(word, "deepgram") {
                config.backend = Backend::Deepgram;
            } else {
                return Err(Failure::UnknownBackend);
            }
        }
        if let Some(language) = language {
            config.deepgram_language = to_text(language);
        }
        if config.backend == Backend::Deepgram {
            if let Err(failure) = config.validate_language() {
                return Err(failure);
            }
            if let Err(failure) = api_key(key) {
                return Err(failure);
            }
        }
        Ok(config)
    }

    pub fn validate_language(&self) -> (r: Result<(), Failure>)
        ensures
            r == if known_language(self.deepgram_language@) {
                Ok(())
            } else {
                Err(Failure::UnknownLanguage)
            },
    {
        if same_text(self.deepgram_language.as_str(), "sv") || same_text(
            self.deepgram_language.as_str(),
            "en",
        ) {
            Ok(())
        } else {
            Err(Failure::UnknownLanguage)
        }
    }
}

/// Settings to print, and to save where they changed.
pub struct Configured {
    pub config: Config,
    pub save: bool,
}

/// What selecting a backend, if one is given, comes to.
pub open spec fn configured(config: Config, backend: Option<Backend>, out: Configured) -> bool {
    &&& out.save == (backend is Some)
    &&& out.config.backend == match backend {
        Some(backend) => backend,
        None => config.backend,
    }
    &&& out.config.deepgram_language == config.deepgram_language
    &&& out.config.extra == config.extra
}

/// Selects `backend`, if one is given, without changing other settings. What is
/// printed is the backend's word.
pub fn configure(config: Config, backend: Option<Backend>) -> (out: Configured)
    ensures
        configured(config, backend, out),
{
    match backend {
        Some(backend) => Configured {
            config: Config {
                backend,
                deepgram_language: config.deepgram_language,
                extra: config.extra,
            },
            save: true,
        },
        None => Configured { config, save: false },
    }
}

/// Where the API key was looked for, and what was found there.
pub enum KeySource {
    /// `DEEPGRAM_API_KEY`.
    Variable(String),
    /// `DEEPGRAM_API_KEY` is set, but not to text.
    VariableNotText,
    /// The key file, with `DEEPGRAM_API_KEY` unset.
    File(String),
    /// Neither the variable nor the file.
    Nowhere(String),
}

/// A visible ASCII character.
pub open spec fn graphic(c: char) -> bool {
    0x21 <= c as u32 <= 0x7e
}

/// A usable key: something, and visible ASCII characters only.
pub open spec fn usable_key(key: Seq<char>) -> bool {
    key.len() > 0 && forall|i: int| 0 <= i < key.len() ==> graphic(#[trigger] key[i])
}

/// The failure that the key source comes to, if it does.
pub open spec fn key_result(source: KeySource) -> Result<Seq<char>, Failure> {
    match source {
        KeySource::Variable(value) => if usable_key(trimmed(value@)) {
            Ok(trimmed(value@))
        } else {
            Err(Failure::UnusableKey)
        },
        KeySource::File(value) => if usable_key(trimmed(value@)) {
            Ok(trimmed(value@))
        } else {
            Err(Failure::UnusableKey)
        },
        KeySource::VariableNotText => Err(Failure::KeyNotText),
        KeySource::Nowhere(cause) => Err(Failure::NoKey { cause }),
    }
}

fn is_usable_key(key: &str) -> (r: bool)
    ensures
        r == usable_key(key@),
{
    let chars = chars_of(key);
    for i in 0..chars.len()
        invariant
            chars@ == key@,
            forall|j: int| 0 <= j < i ==> graphic(#[trigger] chars@[j]),
    {
        let c: u32 = chars[i] as u32;
        if c < 0x21 || 0x7e < c {
            assert(!graphic(key@[i as int]));
            return false;
        }
    }
    chars.len() > 0
}

/// The API key: what the source holds, trimmed, if that is usable.
pub fn api_key(source: KeySource) -> (key: Result<String, Failure>)
    ensures
        match key {
            Ok(key) => key_result(source) == Ok::<Seq<char>, Failure>(key@),
            Err(failure) => key_result(source) == Err::<Seq<char>, Failure>(failure),
        },
{
    let value = match source {
        KeySource::Variable(value) => value,
        KeySource::File(value) => value,
        KeySource::VariableNotText => {
            return Err(Failure::KeyNotText);
        },
        KeySource::Nowhere(cause) => {
            return Err(Failure::NoKey { cause });
        },
    };
    let key = trim(value.as_str());
    if is_usable_key(key.as_str()) {
        Ok(key)
    } else {
        Err(Failure::UnusableKey)
    }
}

/// A usable key holds no white space, so no line break either.
pub proof fn usable_key_has_no_white_space(key: Seq<char>)
    requires
        usable_key(key),
    ensures
        forall|i: int| 0 <= i < key.len() ==> !white_space(#[trigger] key[i]),
        one_line(key),
        is_trim(key),
{
    assert forall|i: int| 0 <= i < key.len() implies !white_space(#[trigger] key[i])
        && !line_break(key[i]) by {
        assert(graphic(key[i]));
    }
}

/// The settings that a recording was started with.
pub struct SessionConfig {
    pub config: Config,
    pub live: bool,
}

/// What the file with the settings of a recording comes to.
pub open spec fn loads_session(
    stored: Stored<SessionConfig>,
    session: Result<SessionConfig, Failure>,
) -> bool {
    match stored {
        Stored::Value(value) => session == Ok::<SessionConfig, Failure>(value),
        Stored::Missing => session matches Ok(session) && session.config.is_default()
            && !session.live,
        Stored::Malformed(cause) => session == Err::<SessionConfig, Failure>(
            Failure::MalformedSession { cause },
        ),
        Stored::Unreadable(cause) => session == Err::<SessionConfig, Failure>(
            Failure::Reported(cause),
        ),
    }
}

impl SessionConfig {
    /// The settings of the recording, from what their file came to. Recordings
    /// without one are necessarily local.
    pub fn load(stored: Stored<SessionConfig>) -> (session: Result<SessionConfig, Failure>)
        ensures
            loads_session(stored, session),
    {
        match stored {
            Stored::Value(value) => Ok(value),
            Stored::Missing => Ok(SessionConfig { config: Config::default(), live: false }),
            Stored::Malformed(cause) => Err(Failure::MalformedSession { cause }),
            Stored::Unreadable(cause) => Err(Failure::Reported(cause)),
        }
    }

    /// The recording is streamed to Deepgram while it runs.
    pub open spec fn streams(self) -> bool {
        self.config.backend == Backend::Deepgram && self.live
    }

    pub fn streaming(&self) -> (r: bool)
        ensures
            r == self.streams(),
    {
        self.config.backend == Backend::Deepgram && self.live
    }
}

/// Live typing is on unless `TEXTSPILL_LIVE` is `0`.
pub open spec fn wants_live(setting: Option<Seq<char>>) -> bool {
    !(setting matches Some(word) && word == "0"@)
}

/// Live typing is on unless `TEXTSPILL_LIVE` is `0`.
pub fn live_wanted(setting: Option<&str>) -> (r: bool)
    ensures
        r == wants_live(
            match setting {
                Some(word) => Some(word@),
                None => None,
            },
        ),
{
    match setting {
        Some(word) => !same_text(word, "0"),
        None => true,
    }
}

/// The name of a file without its extension, looked for in its first `n` characters:
/// what follows the last dot, unless that is where the name begins.
pub open spec fn stem_within(name: Seq<char>, n: int) -> Seq<char>
    decreases n,
{
    if n <= 1 {
        name
    } else if name[n - 1] == '.' {
        name.take(n - 1)
    } else {
        stem_within(name, n - 1)
    }
}

/// The name that a file is written under before it takes its own.
pub open spec fn temporary_name(name: Seq<char>) -> Seq<char> {
    stem_within(name, name.len() as int) + ".tmp"@
}

/// How a file is replaced as a whole: the new contents go to `temporary`, readable
/// by the owner alone, which is then renamed to `path`.
pub struct Replacement {
    pub temporary: String,
    pub path: String,
}

/// Where the new contents of the file `name` in `dir` go.
pub fn write_json(dir: &str, name: &str) -> (replacement: Replacement)
    ensures
        replacement.temporary@ == path_in(dir@, temporary_name(name@)),
        replacement.path@ == path_in(dir@, name@),
{
    let chars = chars_of(name);
    let mut n: usize = chars.len();
    while n > 1 && chars[n - 1] != '.'
        invariant
            chars@ == name@,
            n <= chars@.len(),
            stem_within(name@, chars@.len() as int) == stem_within(name@, n as int),
        decreases n,
    {
        n = n - 1;
    }
    let stem = if n <= 1 {
        to_text(name)
    } else {
        text_of(slice_subrange(chars.as_slice(), 0, n - 1))
    };
    assert(stem@ =~= stem_within(name@, chars@.len() as int));
    let temporary = stem.concat(".tmp");
    Replacement { temporary: join(dir, temporary.as_str()), path: join(dir, name) }
}

/// Settings that are stored are taken as they are; without a file they are those of a
/// fresh installation, local and Swedish; and a file that cannot be read or understood
/// is told of, with the cause.
pub proof fn stored_settings_are_taken(stored: Stored<Config>, config: Result<Config, Failure>)
    requires
        reads_settings(stored, config),
    ensures
        match stored {
            Stored::Value(value) => config matches Ok(found) && found == value,
            Stored::Missing => config matches Ok(found) && found.backend == Backend::Local
                && found.deepgram_language@ == "sv"@ && found.extra@.dom().len() == 0,
            Stored::Malformed(cause) => config matches Err(failure) && failure.told()
                == "invalid TextSpill config.json: "@ + cause@,
            Stored::Unreadable(cause) => config matches Err(failure) && failure.told()
                == "cannot read TextSpill config.json: "@ + cause@,
        },
{
}

/// The environment overrides the settings file and nothing else changes: the backend is
/// the one that `TEXTSPILL_BACKEND` names, where it is set, else that of the file, and
/// so is the language with its own variable. A name that is neither of the two is
/// refused.
pub proof fn the_environment_overrides_the_file(
    before: Config,
    backend: Option<Seq<char>>,
    language: Option<Seq<char>>,
    key: KeySource,
    config: Result<Config, Failure>,
)
    requires
        settles_on(before, backend, language, key, config),
    ensures
        config matches Ok(found) ==> {
            &&& backend is None ==> found.backend == before.backend
            &&& backend matches Some(word) ==> {
                ||| word == "local"@ && found.backend == Backend::Local
                ||| word == "deepgram"@ && found.backend == Backend::Deepgram
            }
            &&& found.deepgram_language@ == match language {
                Some(language) => language,
                None => before.deepgram_language@,
            }
            &&& found.extra == before.extra
            &&& found.backend == Backend::Deepgram ==> key_result(key) is Ok && (
            found.deepgram_language@ == "sv"@ || found.deepgram_language@ == "en"@)
        },
        backend matches Some(word) && word != "local"@ && word != "deepgram"@ ==> config == Err::<
            Config,
            Failure,
        >(Failure::UnknownBackend),
{
}

/// Settling on the local backend needs neither key nor language. Settling on Deepgram
/// needs a language that is known and a usable key, and with both it is never refused;
/// the language is looked at first.
pub proof fn settings_in_order_are_settled_on(
    before: Config,
    backend: Option<Seq<char>>,
    language: Option<Seq<char>>,
    key: KeySource,
    config: Result<Config, Failure>,
)
    requires
        settles_on(before, backend, language, key, config),
    ensures
        backend == Some("local"@) || (backend is None && before.backend == Backend::Local)
            ==> config is Ok,
        backend == Some("deepgram"@) || (backend is None && before.backend == Backend::Deepgram)
            ==> {
            let spoken = match language {
                Some(language) => language,
                None => before.deepgram_language@,
            };
            if spoken != "sv"@ && spoken != "en"@ {
                config == Err::<Config, Failure>(Failure::UnknownLanguage)
            } else {
                match key_result(key) {
                    Ok(_) => config is Ok,
                    Err(failure) => config == Err::<Config, Failure>(failure),
                }
            }
        },
{
    reveal_strlit("local");
    reveal_strlit("deepgram");
    assert("local"@.len() == 5 && "deepgram"@.len() == 8);
}

/// Selecting a backend saves exactly that choice and keeps every other setting; asking
/// for it saves nothing and changes nothing.
pub proof fn selecting_a_backend_keeps_the_rest(
    config: Config,
    backend: Option<Backend>,
    out: Configured,
)
    requires
        configured(config, backend, out),
    ensures
        out.config.deepgram_language == config.deepgram_language,
        out.config.extra == config.extra,
        backend matches Some(chosen) ==> out.save && out.config.backend == chosen,
        backend is None ==> !out.save && out.config == config,
{
}

/// A key is found in either place as what stands there without the white space around
/// it, where it is made of visible ASCII characters; and where it is not, also where
/// there is nothing but white space, it is unusable.
pub proof fn a_key_is_found_in_white_space(
    before: Seq<char>,
    key: Seq<char>,
    after: Seq<char>,
    value: String,
)
    requires
        all_white(before),
        all_white(after),
        is_trim(key),
        value@ == before + key + after,
    ensures
        ({
            let visible = key.len() > 0 && forall|i: int|
                0 <= i < key.len() ==> 0x21 <= #[trigger] key[i] as u32 && key[i] as u32 <= 0x7e;
            let found = if visible {
                Ok::<Seq<char>, Failure>(key)
            } else {
                Err(Failure::UnusableKey)
            };
            &&& key_result(KeySource::Variable(value)) == found
            &&& key_result(KeySource::File(value)) == found
        }),
{
    trimming_takes_off_the_padding(before, key, after);
    if usable_key(key) {
        assert forall|i: int| 0 <= i < key.len() implies 0x21 <= #[trigger] key[i] as u32
            && key[i] as u32 <= 0x7e by {
            assert(graphic(key[i]));
        }
    }
    if key.len() > 0 && forall|i: int|
        0 <= i < key.len() ==> 0x21 <= #[trigger] key[i] as u32 && key[i] as u32 <= 0x7e {
        assert forall|i: int| 0 <= i < key.len() implies graphic(#[trigger] key[i]) by {
            assert(0x21 <= key[i] as u32);
        }
    }
}

/// A key that was found nowhere, or that is no text, is told of as that.
pub proof fn a_missing_key_is_told_of(cause: String)
    ensures
        key_result(KeySource::VariableNotText) matches Err(failure) && failure.told()
            == "DEEPGRAM_API_KEY is not valid text"@,
        key_result(KeySource::Nowhere(cause)) matches Err(failure) && failure.told()
            == "set DEEPGRAM_API_KEY or create ~/.config/textspill/deepgram-api-key (mode 0600): "@
            + cause@,
{
}

/// The settings of a recording are those that it was started with; a recording without
/// any is local and not typed live; and settings that cannot be read are told of.
pub proof fn a_recording_keeps_its_settings(
    stored: Stored<SessionConfig>,
    session: Result<SessionConfig, Failure>,
)
    requires
        loads_session(stored, session),
    ensures
        match stored {
            Stored::Value(value) => session matches Ok(found) && found == value,
            Stored::Missing => session matches Ok(found) && found.config.backend == Backend::Local
                && !found.live && !found.streams(),
            Stored::Malformed(cause) => session matches Err(failure) && failure.told()
                == "invalid recording settings: "@ + cause@,
            Stored::Unreadable(cause) => session matches Err(failure) && failure.told() == cause@,
        },
{
}

/// Live typing is on for every setting but `0`.
pub proof fn only_a_zero_turns_live_typing_off(setting: Option<Seq<char>>)
    ensures
        wants_live(setting) <==> setting is None || setting->0 != seq!['0'],
{
    reveal_strlit("0");
    assert("0"@ =~= seq!['0']);
}

/// A file is replaced under its own name with `tmp` for its extension; one without an
/// extension gets it as well.
pub proof fn a_file_is_replaced_beside_itself(stem: Seq<char>, extension: Seq<char>)
    requires
        stem.len() > 0,
        forall|i: int| 0 <= i < extension.len() ==> #[trigger] extension[i] != '.',
    ensures
        temporary_name(stem.push('.') + extension) == stem + ".tmp"@,
        temporary_name(extension) == extension + ".tmp"@,
{
    let name = stem.push('.') + extension;
    lemma_stem(name, name.len() as int, stem.len() as int);
    assert(name.take(stem.len() as int) =~= stem);
    lemma_no_stem(extension, extension.len() as int);
}

proof fn lemma_stem(name: Seq<char>, n: int, dot: int)
    requires
        0 < dot < n <= name.len(),
        name[dot] == '.',
        forall|i: int| dot < i < name.len() ==> #[trigger] name[i] != '.',
    ensures
        stem_within(name, n) == name.take(dot),
    decreases n,
{
    if n > dot + 1 {
        assert(name[n - 1] != '.');
        lemma_stem(name, n - 1, dot);
    }
}

proof fn lemma_no_stem(name: Seq<char>, n: int)
    requires
        0 <= n <= name.len(),
        forall|i: int| 0 <= i < name.len() ==> #[trigger] name[i] != '.',
    ensures
        stem_within(name, n) == name,
    decreases n,
{
    if n > 1 {
        assert(name[n - 1] != '.');
        lemma_no_stem(name, n - 1);
    }
}

/// A backend is named by the word that stands for it, and no other word names it.
pub proof fn a_backend_is_named_by_its_word(backend: Backend, word: Seq<char>)
    ensures
        backend_named(word) == Some(backend) <==> word == backend.word(),
{
    reveal_strlit("local");
    reveal_strlit("deepgram");
    assert("local"@.len() == 5 && "deepgram"@.len() == 8);
}

}
