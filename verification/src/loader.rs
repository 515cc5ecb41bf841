//! The one-shot configuration loader: four document texts in, one
//! aggregate snapshot or one failure out.
use vstd::prelude::*;

use crate::model::{
    AppConfig, AppConfigV, Background, BackgroundV, CharacterMeta, CharacterMetaV, Font, FontV,
    TextConfigItem, TextConfigItemV,
};
use crate::schema::{doc_table, FromNode};
use crate::table::Table;
use crate::yaml::{yaml_doc_of, Node};
use crate::LoadError;

verus! {

/// The table a document text denotes, under the wrapper key `key`.
pub open spec fn text_doc_table<V: FromNode>(s: Seq<char>, key: Seq<char>) -> Option<
    Map<Seq<char>, V::V>,
> {
    match yaml_doc_of(s) {
        Some(root) => doc_table::<V>(root, key),
        None => None,
    }
}

/// The character mapping the character document denotes.
pub open spec fn characters_doc(s: Seq<char>) -> Option<Map<Seq<char>, CharacterMetaV>> {
    text_doc_table::<CharacterMeta>(s, "mahoshojo"@)
}

/// The background mapping the background document denotes.
pub open spec fn backgrounds_doc(s: Seq<char>) -> Option<Map<Seq<char>, BackgroundV>> {
    text_doc_table::<Background>(s, "backgrounds"@)
}

/// The font mapping the font document denotes.
pub open spec fn fonts_doc(s: Seq<char>) -> Option<Map<Seq<char>, FontV>> {
    text_doc_table::<Font>(s, "fonts"@)
}

/// The overlay-group mapping the text document denotes.
pub open spec fn text_configs_doc(s: Seq<char>) -> Option<Map<Seq<char>, Seq<TextConfigItemV>>> {
    text_doc_table::<Vec<TextConfigItem>>(s, "text_configs"@)
}

/// Parses one document text: one YAML mapping at top level, whose `key`
/// entry holds the table of records.
fn parse_doc<V: FromNode>(text: &str, key: &str) -> (r: Result<Table<V>, LoadError>)
    ensures
        match r {
            Ok(t) => t.wf() && (forall|p: int|
                0 <= p < t.entries@.len() ==> (#[trigger] t.entries@[p]).1.inv())
                && text_doc_table::<V>(text@, key@) == Some(t@),
            Err(e) => e is ParseError && text_doc_table::<V>(text@, key@) is None,
        },
{
    let root = match crate::yaml::parse_document(text) {
        Ok(n) => n,
        Err(m) => { return Err(LoadError::ParseError(m)) },
    };
    let es = match &root {
        Node::Mapping(es) => es,
        _ => {
            return Err(LoadError::ParseError("the document holds no mapping at top level".to_owned()));
        },
    };
    let v = match crate::schema::lookup_node(es, key) {
        Some(v) => v,
        None => {
            return Err(LoadError::ParseError("the document lacks its top-level key".to_owned()));
        },
    };
    match crate::schema::table_from_node::<V>(v) {
        Some(t) => Ok(t),
        None => Err(
            LoadError::ParseError("an entry of the document does not fit its schema".to_owned()),
        ),
    }
}

/// Parses the character document (top-level key `mahoshojo`).
pub fn parse_characters(text: &str) -> (r: Result<Table<CharacterMeta>, LoadError>)
    ensures
        match r {
            Ok(t) => t.wf() && characters_doc(text@) == Some(t@),
            Err(e) => e is ParseError && characters_doc(text@) is None,
        },
{
    parse_doc::<CharacterMeta>(text, "mahoshojo")
}

/// Parses the background document (top-level key `backgrounds`); every
/// background's variant table keeps its keys unique.
pub fn parse_backgrounds(text: &str) -> (r: Result<Table<Background>, LoadError>)
    ensures
        match r {
            Ok(t) => t.wf() && (forall|p: int|
                0 <= p < t.entries@.len() ==> (#[trigger] t.entries@[p]).1.variants.wf())
                && backgrounds_doc(text@) == Some(t@),
            Err(e) => e is ParseError && backgrounds_doc(text@) is None,
        },
{
    parse_doc::<Background>(text, "backgrounds")
}

/// Parses the font document (top-level key `fonts`).
pub fn parse_fonts(text: &str) -> (r: Result<Table<Font>, LoadError>)
    ensures
        match r {
            Ok(t) => t.wf() && fonts_doc(text@) == Some(t@),
            Err(e) => e is ParseError && fonts_doc(text@) is None,
        },
{
    parse_doc::<Font>(text, "fonts")
}

/// Parses the text overlay document (top-level key `text_configs`).
pub fn parse_text_configs(text: &str) -> (r: Result<Table<Vec<TextConfigItem>>, LoadError>)
    ensures
        match r {
            Ok(t) => t.wf() && text_configs_doc(text@) == Some(t@),
            Err(e) => e is ParseError && text_configs_doc(text@) is None,
        },
{
    parse_doc::<Vec<TextConfigItem>>(text, "text_configs")
}

/// What one whole load attempt comes to.
pub enum LoadOutcome {
    /// Every document was read and parsed; the snapshot holds these maps.
    Loaded(AppConfigV),
    /// Some document could not be read; holds the first read failure.
    ReadFailure(Seq<char>),
    /// Every document was read, and some document does not parse.
    ParseFailure,
}

/// The view of one read result: the text read, or the failure's cause.
pub open spec fn read_view(x: Result<String, String>) -> Result<Seq<char>, Seq<char>> {
    match x {
        Ok(s) => Ok(s@),
        Err(m) => Err(m@),
    }
}

/// The outcome the four read results determine: the first read failure
/// wins; then the four documents must parse; the snapshot copies their
/// maps verbatim.
pub open spec fn load_outcome(
    chara: Result<Seq<char>, Seq<char>>,
    backgrounds: Result<Seq<char>, Seq<char>>,
    fonts: Result<Seq<char>, Seq<char>>,
    text_configs: Result<Seq<char>, Seq<char>>,
) -> LoadOutcome {
    match chara {
        Err(m) => LoadOutcome::ReadFailure(m),
        Ok(cs) => match backgrounds {
            Err(m) => LoadOutcome::ReadFailure(m),
            Ok(bs) => match fonts {
                Err(m) => LoadOutcome::ReadFailure(m),
                Ok(fs) => match text_configs {
                    Err(m) => LoadOutcome::ReadFailure(m),
                    Ok(ts) => match (
                        characters_doc(cs),
                        backgrounds_doc(bs),
                        fonts_doc(fs),
                        text_configs_doc(ts),
                    ) {
                        (Some(cm), Some(bm), Some(fm), Some(tm)) => LoadOutcome::Loaded(
                            AppConfigV {
                                characters: cm,
                                backgrounds: bm,
                                fonts: fm,
                                text_configs: tm,
                            },
                        ),
                        _ => LoadOutcome::ParseFailure,
                    },
                },
            },
        },
    }
}

/// Builds the aggregate snapshot out of the four read results: each text
/// parsed under its schema, every mapping copied verbatim; the first read
/// failure becomes `IoError`, a document that does not parse becomes
/// `ParseError`, and nothing else can come back.
pub fn load(
    chara: Result<String, String>,
    backgrounds: Result<String, String>,
    fonts: Result<String, String>,
    text_configs: Result<String, String>,
) -> (r: Result<AppConfig, LoadError>)
    ensures
        ({
            let outcome = load_outcome(
                read_view(chara),
                read_view(backgrounds),
                read_view(fonts),
                read_view(text_configs),
            );
            match r {
                Ok(cfg) => cfg.wf() && outcome == LoadOutcome::Loaded(cfg.deep_view()),
                Err(e) => match e {
                    LoadError::IoError(m) => outcome == LoadOutcome::ReadFailure(m@),
                    LoadError::ParseError(m) => outcome is ParseFailure,
                    LoadError::ResourceDirectoryUnresolved => false,
                },
            }
        }),
{
    let chara_text = match chara {
        Ok(s) => s,
        Err(m) => { return Err(LoadError::IoError(m)) },
    };
    let backgrounds_text = match backgrounds {
        Ok(s) => s,
        Err(m) => { return Err(LoadError::IoError(m)) },
    };
    let fonts_text = match fonts {
        Ok(s) => s,
        Err(m) => { return Err(LoadError::IoError(m)) },
    };
    let text_configs_text = match text_configs {
        Ok(s) => s,
        Err(m) => { return Err(LoadError::IoError(m)) },
    };
    let characters_table = match parse_characters(chara_text.as_str()) {
        Ok(t) => t,
        Err(e) => { return Err(e) },
    };
    let backgrounds_table = match parse_backgrounds(backgrounds_text.as_str()) {
        Ok(t) => t,
        Err(e) => { return Err(e) },
    };
    let fonts_table = match parse_fonts(fonts_text.as_str()) {
        Ok(t) => t,
        Err(e) => { return Err(e) },
    };
    let text_configs_table = match parse_text_configs(text_configs_text.as_str()) {
        Ok(t) => t,
        Err(e) => { return Err(e) },
    };
    Ok(
        AppConfig {
            characters: characters_table,
            backgrounds: backgrounds_table,
            fonts: fonts_table,
            text_configs: text_configs_table,
        },
    )
}

/// An unreadable document aborts the load with exactly its read failure,
/// and the content of every other document plays no part in the outcome.
pub proof fn lemma_read_failure_aborts_load(
    m: Seq<char>,
    c: Seq<char>,
    b: Seq<char>,
    f: Seq<char>,
    b2: Result<Seq<char>, Seq<char>>,
    f2: Result<Seq<char>, Seq<char>>,
    t2: Result<Seq<char>, Seq<char>>,
)
    ensures
        load_outcome(Err(m), b2, f2, t2) == LoadOutcome::ReadFailure(m),
        load_outcome(Ok(c), Err(m), f2, t2) == LoadOutcome::ReadFailure(m),
        load_outcome(Ok(c), Ok(b), Err(m), t2) == LoadOutcome::ReadFailure(m),
        load_outcome(Ok(c), Ok(b), Ok(f), Err(m)) == LoadOutcome::ReadFailure(m),
{
}

/// A document that is not valid YAML makes the load a parse failure,
/// whatever the other documents hold.
pub proof fn lemma_malformed_document_fails_load(
    c: Seq<char>,
    b: Seq<char>,
    f: Seq<char>,
    t: Seq<char>,
)
    ensures
        yaml_doc_of(c) is None || yaml_doc_of(b) is None || yaml_doc_of(f) is None || yaml_doc_of(
            t,
        ) is None ==> load_outcome(Ok(c), Ok(b), Ok(f), Ok(t)) is ParseFailure,
{
}

} // verus!
