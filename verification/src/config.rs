//! The configuration of the service, as it is read from the variables of
//! the environment.

use crate::document::{lemma_position, position};
use crate::ident::fresh_uuid;
use crate::text::{chars_of, copy_texts, texts_of};
use vstd::prelude::*;

verus! {

/// Why the configuration could not be read.
#[derive(Debug, PartialEq, Eq)]
pub enum ConfigError {
    /// A variable that has no default is not set.
    MissingEnvVar(&'static str),
}

/// The configuration of the service.
#[derive(Debug, PartialEq, Eq)]
pub struct Config {
    pub server_addr: String,
    pub log_level: String,
    pub sd3_model_file_name: String,
    pub sd3_clip_name1: String,
    pub sd3_clip_name2: String,
    pub sd3_clip_name3: String,
    pub sd3_base_server: String,
    pub sd3_client_id: String,
    pub img_tmp_point: String,
    pub img_tmp_path: String,
    pub wf_json_path: String,
    pub solana_points: Vec<String>,
}

/// The variables of an environment: names and values.
pub type Vars = Seq<(Seq<char>, Seq<char>)>;

/// The names and values of a list of variables.
pub open spec fn vars_view(vars: Seq<(String, String)>) -> Vars {
    Seq::new(vars.len(), |i: int| (vars[i].0@, vars[i].1@))
}

/// The value of the first variable named `name`.
pub open spec fn var(vars: Vars, name: Seq<char>) -> Option<Seq<char>> {
    let at = position(vars, name);
    if at < vars.len() {
        Some(vars[at].1)
    } else {
        None
    }
}

/// The value of a variable, or `default` where it is not set.
pub open spec fn var_or(vars: Vars, name: Seq<char>, default: Seq<char>) -> Seq<char> {
    match var(vars, name) {
        Some(value) => value,
        None => default,
    }
}

/// The pieces of `s` between the occurrences of `separator`. A text without
/// the separator is one piece, the empty text too.
pub open spec fn split(s: Seq<char>, separator: char) -> Seq<Seq<char>>
    decreases s.len(),
{
    if s.len() == 0 {
        seq![Seq::empty()]
    } else {
        let before = split(s.drop_last(), separator);
        if s.last() == separator {
            before.push(Seq::empty())
        } else {
            before.drop_last().push(before.last().push(s.last()))
        }
    }
}

/// The first variable without a default that is not set, in the order in
/// which the configuration asks for them.
pub open spec fn first_missing(vars: Vars) -> Option<Seq<char>> {
    if var(vars, "IMG_TEMP_PATH"@) is None {
        Some("IMG_TEMP_PATH"@)
    } else if var(vars, "IMG_TMP_POINT"@) is None {
        Some("IMG_TMP_POINT"@)
    } else if var(vars, "SD3_BASE_SERVER"@) is None {
        Some("SD3_BASE_SERVER"@)
    } else if var(vars, "SD3_MODEL_FILE_NAME"@) is None {
        Some("SD3_MODEL_FILE_NAME"@)
    } else if var(vars, "SD3_CLIP_NAME1"@) is None {
        Some("SD3_CLIP_NAME1"@)
    } else if var(vars, "SD3_CLIP_NAME2"@) is None {
        Some("SD3_CLIP_NAME2"@)
    } else if var(vars, "SD3_CLIP_NAME3"@) is None {
        Some("SD3_CLIP_NAME3"@)
    } else if var(vars, "WF_JSON_PATH"@) is None {
        Some("WF_JSON_PATH"@)
    } else if var(vars, "SOLANA_POINTS"@) is None {
        Some("SOLANA_POINTS"@)
    } else {
        None
    }
}

impl Config {
    /// The configuration holds what the variables say. The server address and
    /// the log level have defaults. A client ID that is not set is made up
    /// anew, as an identifier of 36 characters.
    pub open spec fn reads(self, vars: Vars) -> bool {
        &&& self.server_addr@ == var_or(vars, "SERVER_ADDR"@, "127.0.0.1:8080"@)
        &&& self.log_level@ == var_or(vars, "LOG_LEVEL"@, "INFO"@)
        &&& Some(self.img_tmp_path@) == var(vars, "IMG_TEMP_PATH"@)
        &&& Some(self.img_tmp_point@) == var(vars, "IMG_TMP_POINT"@)
        &&& Some(self.sd3_base_server@) == var(vars, "SD3_BASE_SERVER"@)
        &&& match var(vars, "SD3_CLIENT_ID"@) {
            Some(id) => self.sd3_client_id@ == id,
            None => self.sd3_client_id@.len() == 36,
        }
        &&& Some(self.sd3_model_file_name@) == var(vars, "SD3_MODEL_FILE_NAME"@)
        &&& Some(self.sd3_clip_name1@) == var(vars, "SD3_CLIP_NAME1"@)
        &&& Some(self.sd3_clip_name2@) == var(vars, "SD3_CLIP_NAME2"@)
        &&& Some(self.sd3_clip_name3@) == var(vars, "SD3_CLIP_NAME3"@)
        &&& Some(self.wf_json_path@) == var(vars, "WF_JSON_PATH"@)
        &&& match var(vars, "SOLANA_POINTS"@) {
            Some(points) => texts_of(self.solana_points@) == split(points, ','),
            None => false,
        }
    }
}

/// Looks a variable up.
pub fn lookup_var<'a>(vars: &'a Vec<(String, String)>, name: &str) -> (value: Option<&'a str>)
    ensures
        match value {
            Some(text) => var(vars_view(vars@), name@) == Some(text@),
            None => var(vars_view(vars@), name@) is None,
        },
{
    let wanted: String = name.to_owned();
    let mut i: usize = 0;
    while i < vars.len()
        invariant
            i <= vars.len(),
            wanted@ == name@,
            forall|j: int| 0 <= j < i ==> (#[trigger] vars_view(vars@)[j]).0 != name@,
        decreases vars.len() - i,
    {
        if vars[i].0 == wanted {
            proof {
                lemma_position(vars_view(vars@), name@, i as int);
            }
            return Some(vars[i].1.as_str());
        }
        i += 1;
    }
    proof {
        lemma_position(vars_view(vars@), name@, i as int);
    }
    None
}

/// Cuts `s` at every occurrence of `separator`.
pub fn split_text(s: &str, separator: char) -> (pieces: Vec<String>)
    ensures
        texts_of(pieces@) == split(s@, separator),
{
    let chars: Vec<char> = chars_of(s);
    let mut pieces: Vec<String> = Vec::new();
    let mut start: usize = 0;
    let mut i: usize = 0;
    assert(s@.take(0) =~= Seq::<char>::empty());
    assert(texts_of(pieces@).push(s@.subrange(0, 0)) =~= split(s@.take(0), separator));
    while i < chars.len()
        invariant
            start <= i <= chars.len(),
            chars@ == s@,
            texts_of(pieces@).push(s@.subrange(start as int, i as int)) == split(
                s@.take(i as int),
                separator,
            ),
        decreases chars.len() - i,
    {
        let ghost done = texts_of(pieces@);
        let ghost current = s@.subrange(start as int, i as int);
        let ghost prefix = s@.take(i + 1);
        assert(prefix.drop_last() =~= s@.take(i as int));
        assert(prefix.last() == s@[i as int]);
        assert(done.push(current).drop_last() =~= done);
        if chars[i] == separator {
            pieces.push(s.substring_char(start, i).to_owned());
            assert(texts_of(pieces@) =~= done.push(current));
            start = i + 1;
            assert(s@.subrange(start as int, i + 1) =~= Seq::<char>::empty());
        } else {
            assert(s@.subrange(start as int, i + 1) =~= current.push(s@[i as int]));
        }
        i += 1;
    }
    let ghost done = texts_of(pieces@);
    assert(s@.take(i as int) =~= s@);
    pieces.push(s.substring_char(start, i).to_owned());
    assert(texts_of(pieces@) =~= done.push(s@.subrange(start as int, i as int)));
    pieces
}

/// The value of a variable that has no default.
fn required(vars: &Vec<(String, String)>, name: &'static str) -> (outcome: Result<
    String,
    ConfigError,
>)
    ensures
        match outcome {
            Ok(value) => var(vars_view(vars@), name@) == Some(value@),
            Err(ConfigError::MissingEnvVar(missing)) => missing@ == name@ && var(
                vars_view(vars@),
                name@,
            ) is None,
        },
{
    match lookup_var(vars, name) {
        Some(value) => Ok(value.to_owned()),
        None => Err(ConfigError::MissingEnvVar(name)),
    }
}

/// The value of a variable, or `default` where it is not set.
fn optional(vars: &Vec<(String, String)>, name: &str, default: &str) -> (value: String)
    ensures
        value@ == var_or(vars_view(vars@), name@, default@),
{
    match lookup_var(vars, name) {
        Some(value) => value.to_owned(),
        None => default.to_owned(),
    }
}

impl Config {
    /// Reads the configuration out of the variables of the environment.
    /// It fails on the first variable without a default that is not set, and
    /// on nothing else.
    pub fn from_env(vars: &Vec<(String, String)>) -> (outcome: Result<Config, ConfigError>)
        ensures
            match outcome {
                Ok(config) => first_missing(vars_view(vars@)) is None && config.reads(
                    vars_view(vars@),
                ),
                Err(ConfigError::MissingEnvVar(name)) => first_missing(vars_view(vars@)) == Some(
                    name@,
                ),
            },
    {
        let server_addr: String = optional(vars, "SERVER_ADDR", "127.0.0.1:8080");
        let log_level: String = optional(vars, "LOG_LEVEL", "INFO");
        let img_tmp_path: String = required(vars, "IMG_TEMP_PATH")?;
        let img_tmp_point: String = required(vars, "IMG_TMP_POINT")?;
        let sd3_base_server: String = required(vars, "SD3_BASE_SERVER")?;
        let sd3_client_id: String = match lookup_var(vars, "SD3_CLIENT_ID") {
            Some(id) => id.to_owned(),
            None => fresh_uuid(),
        };
        let sd3_model_file_name: String = required(vars, "SD3_MODEL_FILE_NAME")?;
        let sd3_clip_name1: String = required(vars, "SD3_CLIP_NAME1")?;
        let sd3_clip_name2: String = required(vars, "SD3_CLIP_NAME2")?;
        let sd3_clip_name3: String = required(vars, "SD3_CLIP_NAME3")?;
        let wf_json_path: String = required(vars, "WF_JSON_PATH")?;
        let solana_points_str: String = required(vars, "SOLANA_POINTS")?;
        let solana_points: Vec<String> = split_text(solana_points_str.as_str(), ',');
        Ok(
            Config {
                server_addr,
                log_level,
                sd3_base_server,
                sd3_client_id,
                sd3_model_file_name,
                sd3_clip_name1,
                sd3_clip_name2,
                sd3_clip_name3,
                img_tmp_path,
                img_tmp_point,
                wf_json_path,
                solana_points,
            },
        )
    }
}

impl Clone for Config {
    fn clone(&self) -> (copy: Config)
        ensures
            copy.server_addr@ == self.server_addr@,
            copy.log_level@ == self.log_level@,
            copy.sd3_model_file_name@ == self.sd3_model_file_name@,
            copy.sd3_clip_name1@ == self.sd3_clip_name1@,
            copy.sd3_clip_name2@ == self.sd3_clip_name2@,
            copy.sd3_clip_name3@ == self.sd3_clip_name3@,
            copy.sd3_base_server@ == self.sd3_base_server@,
            copy.sd3_client_id@ == self.sd3_client_id@,
            copy.img_tmp_point@ == self.img_tmp_point@,
            copy.img_tmp_path@ == self.img_tmp_path@,
            copy.wf_json_path@ == self.wf_json_path@,
            texts_of(copy.solana_points@) == texts_of(self.solana_points@),
    {
        Config {
            server_addr: self.server_addr.clone(),
            log_level: self.log_level.clone(),
            sd3_model_file_name: self.sd3_model_file_name.clone(),
            sd3_clip_name1: self.sd3_clip_name1.clone(),
            sd3_clip_name2: self.sd3_clip_name2.clone(),
            sd3_clip_name3: self.sd3_clip_name3.clone(),
            sd3_base_server: self.sd3_base_server.clone(),
            sd3_client_id: self.sd3_client_id.clone(),
            img_tmp_point: self.img_tmp_point.clone(),
            img_tmp_path: self.img_tmp_path.clone(),
            wf_json_path: self.wf_json_path.clone(),
            solana_points: copy_texts(&self.solana_points),
        }
    }
}

impl Default for Config {
    /// The configuration in which every text is empty and no ledger endpoint
    /// is named.
    fn default() -> (config: Config)
        ensures
            config.server_addr@.len() == 0,
            config.log_level@.len() == 0,
            config.sd3_model_file_name@.len() == 0,
            config.sd3_clip_name1@.len() == 0,
            config.sd3_clip_name2@.len() == 0,
            config.sd3_clip_name3@.len() == 0,
            config.sd3_base_server@.len() == 0,
            config.sd3_client_id@.len() == 0,
            config.img_tmp_point@.len() == 0,
            config.img_tmp_path@.len() == 0,
            config.wf_json_path@.len() == 0,
            config.solana_points@.len() == 0,
    {
        Config {
            server_addr: String::new(),
            log_level: String::new(),
            sd3_model_file_name: String::new(),
            sd3_clip_name1: String::new(),
            sd3_clip_name2: String::new(),
            sd3_clip_name3: String::new(),
            sd3_base_server: String::new(),
            sd3_client_id: String::new(),
            img_tmp_point: String::new(),
            img_tmp_path: String::new(),
            wf_json_path: String::new(),
            solana_points: Vec::new(),
        }
    }
}

impl ConfigError {
    /// What the error says.
    pub fn message(&self) -> (text: String)
        ensures
            match self {
                ConfigError::MissingEnvVar(name) => text@ == "Missing environment variable: "@
                    + name@,
            },
    {
        match self {
            ConfigError::MissingEnvVar(name) => crate::text::joined(
                "Missing environment variable: ",
                name,
            ),
        }
    }
}

} // verus!
