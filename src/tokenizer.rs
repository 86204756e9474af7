//! Token counting: the supported models, the vocabulary each one uses, and
//! the two tokenizer backends behind them.
use vstd::prelude::*;
use crate::filelist::same_text;

verus! {

#[verifier::external_type_specification]
#[verifier::external_body]
pub struct ExCoreBPE(tiktoken_rs::CoreBPE);

#[verifier::external_type_specification]
#[verifier::external_body]
pub struct ExTokenizer(tokenizers::Tokenizer);

/// The byte-pair-encoding tables of the GPT family.
#[derive(PartialEq, Eq, Structural, Clone, Copy, Debug)]
pub enum BpeTable {
    O200k,
    Cl100k,
    R50k,
}

/// A loaded tokenizer: a GPT byte-pair encoder with the table it was loaded
/// from, or the DeepSeek tokenizer.
pub enum TokenizerType {
    GPT(tiktoken_rs::CoreBPE, BpeTable),
    DeepSeek(tokenizers::Tokenizer),
}

/// The models whose token count can be reported.
#[derive(PartialEq, Eq, Structural, Clone, Copy, Debug)]
pub enum Model {
    GPT4o,
    GPT4,
    GPT3_5,
    GPT3,
    GPT2,
    DeepSeek,
}

/// The table a GPT model uses; several models share one.
pub open spec fn table_of(m: Model) -> Option<BpeTable> {
    match m {
        Model::GPT4o => Some(BpeTable::O200k),
        Model::GPT4 | Model::GPT3_5 => Some(BpeTable::Cl100k),
        Model::GPT3 | Model::GPT2 => Some(BpeTable::R50k),
        Model::DeepSeek => None,
    }
}

/// The user-facing name of a model.
pub open spec fn display_of(m: Model) -> Seq<char> {
    match m {
        Model::GPT4o => "GPT-4o"@,
        Model::GPT4 => "GPT-4"@,
        Model::GPT3_5 => "GPT-3.5"@,
        Model::GPT3 => "GPT-3"@,
        Model::GPT2 => "GPT-2"@,
        Model::DeepSeek => "DeepSeek"@,
    }
}

/// The model a lower-case selector names.
pub open spec fn model_named(name: Seq<char>) -> Option<Model> {
    if name == "gpt4o"@ {
        Some(Model::GPT4o)
    } else if name == "gpt4"@ {
        Some(Model::GPT4)
    } else if name == "gpt3.5"@ {
        Some(Model::GPT3_5)
    } else if name == "gpt3"@ {
        Some(Model::GPT3)
    } else if name == "gpt2"@ {
        Some(Model::GPT2)
    } else if name == "deepseek"@ {
        Some(Model::DeepSeek)
    } else {
        None
    }
}

/// The lower-case form of `s`.
pub uninterp spec fn lower_of(s: Seq<char>) -> Seq<char>;

/// Relies on `str::to_lowercase`: the result depends on the characters alone.
#[verifier::external_body]
pub(crate) fn lowercase(s: &str) -> (r: String)
    ensures
        r@ == lower_of(s@),
{
    s.to_lowercase()
}

/// Whether loading `table` succeeds; the tables are compiled into the
/// tokenizer crate, so this depends on the table alone.
pub uninterp spec fn bpe_table_loads(table: BpeTable) -> bool;

/// Whether `json` describes a tokenizer that can be loaded.
pub uninterp spec fn tokenizer_json_loads(json: Seq<u8>) -> bool;

/// Relies on `tiktoken_rs::o200k_base`: loads the o200k table.
#[verifier::external_body]
fn load_o200k() -> (r: Result<tiktoken_rs::CoreBPE, String>)
    ensures
        r is Ok == bpe_table_loads(BpeTable::O200k),
{
    tiktoken_rs::o200k_base().map_err(|e| e.to_string())
}

/// Relies on `tiktoken_rs::cl100k_base`: loads the cl100k table.
#[verifier::external_body]
fn load_cl100k() -> (r: Result<tiktoken_rs::CoreBPE, String>)
    ensures
        r is Ok == bpe_table_loads(BpeTable::Cl100k),
{
    tiktoken_rs::cl100k_base().map_err(|e| e.to_string())
}

/// Relies on `tiktoken_rs::r50k_base`: loads the r50k table.
#[verifier::external_body]
fn load_r50k() -> (r: Result<tiktoken_rs::CoreBPE, String>)
    ensures
        r is Ok == bpe_table_loads(BpeTable::R50k),
{
    tiktoken_rs::r50k_base().map_err(|e| e.to_string())
}

/// Relies on `tokenizers::Tokenizer::from_bytes`: reads a tokenizer from its
/// JSON description.
#[verifier::external_body]
fn load_tokenizer_json(json: &[u8]) -> (r: Result<tokenizers::Tokenizer, String>)
    ensures
        r is Ok == tokenizer_json_loads(json@),
{
    tokenizers::Tokenizer::from_bytes(json).map_err(|e| e.to_string())
}

/// Relies on `tiktoken_rs::CoreBPE::encode` with the encoder's own special
/// tokens allowed (`special_tokens`): the number of tokens of the text.
#[verifier::external_body]
fn bpe_token_count(bpe: &tiktoken_rs::CoreBPE, text: &str) -> (r: Result<usize, String>) {
    match bpe.encode(text, &bpe.special_tokens()) {
        Ok((tokens, _)) => Ok(tokens.len()),
        Err(e) => Err(e.to_string()),
    }
}

/// Relies on `tokenizers::Tokenizer::encode` without added special tokens,
/// and `tokenizers::Encoding::get_ids`: the number of token ids.
#[verifier::external_body]
fn tokenizer_count(tokenizer: &tokenizers::Tokenizer, text: &str) -> (r: Result<usize, String>) {
    match tokenizer.encode(text, false) {
        Ok(encoding) => Ok(encoding.get_ids().len()),
        Err(e) => Err(e.to_string()),
    }
}

/// The bundled DeepSeek tokenizer description, or the error that it is
/// missing when the lookup found nothing.
pub fn get_tokenizer_json(embedded: Option<Vec<u8>>) -> (r: Result<Vec<u8>, String>)
    ensures
        embedded is Some ==> r == Ok::<Vec<u8>, String>(embedded->0),
        embedded is None ==> r is Err && r->Err_0@
            == "DeepSeek tokenizer.json not found in embedded resources"@,
{
    match embedded {
        Some(data) => Ok(data),
        None => Err(String::from_str("DeepSeek tokenizer.json not found in embedded resources")),
    }
}

/// `prefix` followed by `rest`.
fn prefixed(prefix: &str, rest: &str) -> (r: String)
    ensures
        r@ == prefix@ + rest@,
{
    let mut s = String::from_str(prefix);
    s.append(rest);
    s
}

impl TokenizerType {
    /// Counts the tokens of `text`. Only the backends' own failures are
    /// reported; a DeepSeek failure is labelled as such.
    pub fn count_tokens(&self, text: &str) -> (r: Result<usize, String>)
        ensures
            self is DeepSeek && r is Err ==> r->Err_0@.len() >= 29 && r->Err_0@.take(29)
                == "DeepSeek tokenization error: "@,
    {
        match self {
            TokenizerType::GPT(bpe, _) => bpe_token_count(bpe, text),
            TokenizerType::DeepSeek(tokenizer) => match tokenizer_count(tokenizer, text) {
                Ok(n) => Ok(n),
                Err(e) => {
                    let msg = prefixed("DeepSeek tokenization error: ", e.as_str());
                    proof {
                        reveal_strlit("DeepSeek tokenization error: ");
                        assert(msg@.take(29) =~= "DeepSeek tokenization error: "@);
                    }
                    Err(msg)
                },
            },
        }
    }
}

impl Model {
    /// Loads the tokenizer of this model: the GPT models load their table
    /// (GPT-4 and GPT-3.5 share cl100k, GPT-3 and GPT-2 share r50k); DeepSeek
    /// reads the bundled description `embedded`, which the GPT models ignore.
    pub fn to_tokenizer(&self, embedded: Option<Vec<u8>>) -> (r: Result<TokenizerType, String>)
        ensures
            r matches Ok(t) ==> match table_of(*self) {
                Some(table) => t matches TokenizerType::GPT(_, used) && used == table,
                None => t is DeepSeek,
            },
            table_of(*self) matches Some(t) ==> (r is Ok <==> bpe_table_loads(t)),
            *self == Model::DeepSeek ==> (embedded matches Some(j) ==> (r is Ok <==> tokenizer_json_loads(j@))),
            *self == Model::DeepSeek && embedded is None ==> r is Err && r->Err_0@
                == "DeepSeek tokenizer.json not found in embedded resources"@,
    {
        match self {
            Model::GPT4o => match load_o200k() {
                Ok(bpe) => Ok(TokenizerType::GPT(bpe, BpeTable::O200k)),
                Err(e) => Err(e),
            },
            Model::GPT4 | Model::GPT3_5 => match load_cl100k() {
                Ok(bpe) => Ok(TokenizerType::GPT(bpe, BpeTable::Cl100k)),
                Err(e) => Err(e),
            },
            Model::GPT3 | Model::GPT2 => match load_r50k() {
                Ok(bpe) => Ok(TokenizerType::GPT(bpe, BpeTable::R50k)),
                Err(e) => Err(e),
            },
            Model::DeepSeek => {
                let json = match get_tokenizer_json(embedded) {
                    Ok(json) => json,
                    Err(e) => {
                        return Err(e);
                    },
                };
                match load_tokenizer_json(json.as_slice()) {
                    Ok(tokenizer) => Ok(TokenizerType::DeepSeek(tokenizer)),
                    Err(e) => Err(prefixed("Failed to load DeepSeek tokenizer: ", e.as_str())),
                }
            },
        }
    }

    /// The user-facing name of the model.
    pub fn display_name(&self) -> (r: &'static str)
        ensures
            r@ == display_of(*self),
    {
        match self {
            Model::GPT4o => "GPT-4o",
            Model::GPT4 => "GPT-4",
            Model::GPT3_5 => "GPT-3.5",
            Model::GPT3 => "GPT-3",
            Model::GPT2 => "GPT-2",
            Model::DeepSeek => "DeepSeek",
        }
    }

    /// The model that `s` selects, ignoring case.
    pub fn parse_name(s: &str) -> (r: Result<Model, String>)
        ensures
            match model_named(lower_of(s@)) {
                Some(m) => r == Ok::<Model, String>(m),
                None => r is Err && r->Err_0@ == "ERROR: Unsupported model: "@ + s@,
            },
    {
        let lower = lowercase(s);
        Model::from_lower_name(lower.as_str(), s)
    }

    /// The model that the lower-case selector `lower` names; otherwise the
    /// error that quotes `input`, the selector as it was given.
    pub fn from_lower_name(lower: &str, input: &str) -> (r: Result<Model, String>)
        ensures
            match model_named(lower@) {
                Some(m) => r == Ok::<Model, String>(m),
                None => r is Err && r->Err_0@ == "ERROR: Unsupported model: "@ + input@,
            },
    {
        if same_text(lower, "gpt4o") {
            Ok(Model::GPT4o)
        } else if same_text(lower, "gpt4") {
            Ok(Model::GPT4)
        } else if same_text(lower, "gpt3.5") {
            Ok(Model::GPT3_5)
        } else if same_text(lower, "gpt3") {
            Ok(Model::GPT3)
        } else if same_text(lower, "gpt2") {
            Ok(Model::GPT2)
        } else if same_text(lower, "deepseek") {
            Ok(Model::DeepSeek)
        } else {
            Err(prefixed("ERROR: Unsupported model: ", input))
        }
    }
}

impl core::str::FromStr for Model {
    type Err = String;

    fn from_str(s: &str) -> Result<Model, String> {
        Model::parse_name(s)
    }
}

} // verus!
