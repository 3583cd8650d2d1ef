//! A tool whose behaviour is a row of the registry: several endpoints that answer the same question, raced.
//! Nothing here knows what any of them is about.

use vstd::prelude::*;

use crate::collect::{first_where, keep, law_the_first_wanted_item_is_found, outcome};
use crate::json::{
    compact_text, entry_views, group_json_views, json_parsed, json_text, law_a_key_finds_its_first_entry, lemma_holds,
    parse, Json, JsonView,
};
use crate::text::{
    all_digits, cat2, cat3, cat4, cat7, chars_of, contains_char, contains_of, dec, decimal,
    digits_value, find_from, find_of, is_digit, joined_with, law_every_part_stands_in_the_joined_text,
    law_replacing_goes_from_left_to_right, lemma_find,
    lemma_occurrences_concat, lemma_occurrences_none, occurrences, parse_usize, quote, quoted, replace, replaced, same,
    split, split_of, stands_at, text_of,
};
use crate::tool::tools::web_fetch::{show_status, status_text};

verus! {

broadcast use group_json_views;

/// The most a source's reply may hold: 256 KiB.
pub const MAX_BODY_BYTES: usize = 262_144;

/// What a path is split on, and therefore what a filled path may not smuggle in.
pub const PATH_SEPARATOR: char = '.';

#[derive(Debug, PartialEq, Eq)]
pub struct SourceSet {
    /// How many sources run at once. The rest wait in reserve.
    pub fan_out: usize,
    /// How many answers are enough.
    pub take: usize,
    pub sources: Vec<Source>,
}

#[derive(Debug, PartialEq, Eq)]
pub struct Source {
    pub name: String,
    /// Placeholders in braces are filled from the tool's input, and only from fields its schema declares.
    pub url: String,
    /// The dotted path to the value in the reply. Takes the same placeholders, filled as they are: this is a path
    /// into JSON and not a URL.
    pub pick: String,
}

#[verifier::ext_equal]
pub struct SourceView {
    pub name: Seq<char>,
    pub url: Seq<char>,
    pub pick: Seq<char>,
}

#[verifier::ext_equal]
pub struct SourceSetView {
    pub fan_out: usize,
    pub take: usize,
    pub sources: Seq<SourceView>,
}

impl DeepView for Source {
    type V = SourceView;

    open spec fn deep_view(&self) -> SourceView {
        SourceView { name: self.name@, url: self.url@, pick: self.pick@ }
    }
}

impl DeepView for SourceSet {
    type V = SourceSetView;

    open spec fn deep_view(&self) -> SourceSetView {
        SourceSetView {
            fan_out: self.fan_out,
            take: self.take,
            sources: self.sources.deep_view(),
        }
    }
}

/// The fields between braces, in order; nothing where a brace is left open.
pub open spec fn fields_of(template: Seq<char>) -> Option<Seq<Seq<char>>>
    decreases template.len(),
{
    match find_of(template, '{') {
        None => Some(seq![]),
        Some(open) => if 0 <= open < template.len() {
            let after = template.skip(open + 1);
            match find_of(after, '}') {
                None => None,
                Some(close) => if 0 <= close < after.len() {
                    match fields_of(after.skip(close + 1)) {
                        None => None,
                        Some(rest) => Some(seq![after.take(close)] + rest),
                    }
                } else {
                    None
                },
            }
        } else {
            None
        },
    }
}

pub open spec fn unclosed(template: Seq<char>) -> Seq<char> {
    quoted(template) + " has a { with no closing }"@
}

/// Every placeholder of a template, or the fault of one that is never closed.
pub open spec fn placeholders_of(template: Seq<char>) -> Result<Seq<Seq<char>>, Seq<char>> {
    match fields_of(template) {
        Some(fields) => Ok(fields),
        None => Err(unclosed(template)),
    }
}

pub fn placeholders(template: &str) -> (found: Result<Vec<String>, String>)
    ensures
        outcome(found) == placeholders_of(template@),
{
    let chars: Vec<char> = chars_of(template);
    let length: usize = chars.len();
    let mut fields: Vec<String> = Vec::new();
    let mut at: usize = 0;
    assert(chars@.skip(0) =~= chars@);
    assert(fields.deep_view() =~= seq![]);
    assert(fields_of(template@) is Some ==> seq![] + fields_of(template@)->Some_0 =~= fields_of(
        template@,
    )->Some_0);
    loop
        invariant
            chars@ == template@,
            length == chars@.len(),
            at <= length,
            fields_of(template@) == (match fields_of(chars@.skip(at as int)) {
                Some(rest) => Some(fields.deep_view() + rest),
                None => None,
            }),
        decreases length - at,
    {
        let ghost rest = chars@.skip(at as int);
        let open: usize = match find_from(&chars, at, '{') {
            Some(open) => open,
            None => {
                assert(fields.deep_view() + seq![] =~= fields.deep_view());
                return Ok(fields);
            },
        };
        let from: usize = at + open + 1;
        assert(rest.skip(open as int + 1) =~= chars@.skip(from as int));
        let ghost after = chars@.skip(from as int);
        match find_from(&chars, from, '}') {
            None => {
                return Err(cat2(quote(template).as_str(), " has a { with no closing }"));
            },
            Some(close) => {
                let field: String = text_of(
                    vstd::slice::slice_subrange(chars.as_slice(), from, from + close),
                );
                assert(field@ =~= after.take(close as int));
                assert(after.skip(close as int + 1) =~= chars@.skip(from + close + 1));
                let ghost before = fields.deep_view();
                let ghost named = field@;
                keep(&mut fields, field);
                assert(fields_of(rest) == (match fields_of(chars@.skip(from + close + 1)) {
                    None => None,
                    Some(more) => Some(seq![named] + more),
                }));
                proof {
                    if let Some(more) = fields_of(chars@.skip(from + close + 1)) {
                        assert(before + (seq![named] + more) =~= fields.deep_view() + more);
                    }
                }
                at = from + close + 1;
            },
        }
    }
}

/// The fields an input schema declares.
pub open spec fn declared_of(input_schema: JsonView) -> Seq<Seq<char>> {
    match input_schema.at("properties"@) {
        JsonView::Object(properties) => properties.map_values(
            |entry: (Seq<char>, JsonView)| entry.0,
        ),
        _ => seq![],
    }
}

fn declared_fields(input_schema: &Json) -> (declared: Vec<String>)
    ensures
        declared.deep_view() == declared_of(input_schema.deep_view()),
{
    let mut declared: Vec<String> = Vec::new();
    if let Some(Json::Object(properties)) = input_schema.get("properties") {
        for i in 0..properties.len()
            invariant
                declared@.len() == i,
                forall|k: int| 0 <= k < i ==> (#[trigger] declared@[k])@ == properties@[k].0@,
        {
            declared.push(properties[i].0.clone());
        }
        assert(declared.deep_view() =~= entry_views(properties@).map_values(
            |entry: (Seq<char>, JsonView)| entry.0,
        ));
    } else {
        assert(declared.deep_view() =~= seq![]);
    }
    declared
}

fn is_among(texts: &Vec<String>, text: &str) -> (found: bool)
    ensures
        found == texts.deep_view().contains(text@),
{
    let ghost views = texts.deep_view();
    for i in 0..texts.len()
        invariant
            views == texts.deep_view(),
            forall|k: int| 0 <= k < i ==> #[trigger] views[k] != text@,
    {
        assert(views[i as int] == texts@[i as int]@);
        if same(texts[i].as_str(), text) {
            return true;
        }
    }
    false
}

/// The first field of a template that the schema does not declare.
pub open spec fn undeclared(fields: Seq<Seq<char>>, declared: Seq<Seq<char>>) -> Option<Seq<char>> {
    first_where(fields, |field: Seq<char>| !declared.contains(field))
}

fn first_undeclared(fields: &Vec<String>, declared: &Vec<String>) -> (found: Option<usize>)
    ensures
        (match found {
            Some(i) => i < fields@.len() && undeclared(fields.deep_view(), declared.deep_view())
                == Some(fields@[i as int]@),
            None => undeclared(fields.deep_view(), declared.deep_view()) is None,
        }),
{
    let ghost views = fields.deep_view();
    let ghost known = declared.deep_view();
    let mut i: usize = 0;
    assert(views.skip(0) =~= views);
    while i < fields.len()
        invariant
            i <= fields@.len(),
            views == fields.deep_view(),
            known == declared.deep_view(),
            undeclared(views.skip(i as int), known) == undeclared(views, known),
        decreases fields@.len() - i,
    {
        assert(views.skip(i as int)[0] == fields@[i as int]@);
        if !is_among(declared, fields[i].as_str()) {
            return Some(i);
        }
        assert(views.skip(i as int).drop_first() =~= views.skip(i as int + 1));
        i += 1;
    }
    None
}

/// What is wrong with one template of a source: a brace left open, or a field the schema does not declare. The
/// template is named besides the field, so that the same field in both templates gives two different faults.
pub open spec fn template_fault(
    name: Seq<char>,
    template: Seq<char>,
    declared: Seq<Seq<char>>,
) -> Option<Seq<char>> {
    match placeholders_of(template) {
        Err(error) => Some("source "@ + quoted(name) + ": "@ + error),
        Ok(fields) => match undeclared(fields, declared) {
            None => None,
            Some(field) => Some(
                "source "@ + quoted(name) + " uses {"@ + field + "} in "@ + quoted(template)
                    + ", which input_schema does not declare"@,
            ),
        },
    }
}

fn check_template(name: &str, template: &str, declared: &Vec<String>) -> (fault: Option<String>)
    ensures
        fault.deep_view() == template_fault(name@, template@, declared.deep_view()),
{
    match placeholders(template) {
        Err(error) => Some(cat4("source ", quote(name).as_str(), ": ", error.as_str())),
        Ok(fields) => match first_undeclared(&fields, declared) {
            None => None,
            Some(i) => Some(
                cat7(
                    "source ",
                    quote(name).as_str(),
                    " uses {",
                    fields[i].as_str(),
                    "} in ",
                    quote(template).as_str(),
                    ", which input_schema does not declare",
                ),
            ),
        },
    }
}

pub open spec fn used_before(sources: Seq<SourceView>, i: int, name: Seq<char>) -> bool {
    exists|k: int| 0 <= k < i && (#[trigger] sources[k]).name == name
}

/// What is wrong with one source where it stands.
pub open spec fn source_fault(
    sources: Seq<SourceView>,
    i: int,
    declared: Seq<Seq<char>>,
) -> Option<Seq<char>> {
    let source = sources[i];
    if used_before(sources, i, source.name) {
        Some("source name "@ + quoted(source.name) + " is used more than once"@)
    } else if source.pick.len() == 0 {
        Some("source "@ + quoted(source.name) + " has an empty pick"@)
    } else {
        match template_fault(source.name, source.url, declared) {
            Some(fault) => Some(fault),
            None => template_fault(source.name, source.pick, declared),
        }
    }
}

/// The first fault among the sources from a position on.
pub open spec fn sources_fault(
    sources: Seq<SourceView>,
    from: int,
    declared: Seq<Seq<char>>,
) -> Option<Seq<char>>
    decreases sources.len() - from,
{
    if from >= sources.len() {
        None
    } else {
        match source_fault(sources, from, declared) {
            Some(fault) => Some(fault),
            None => sources_fault(sources, from + 1, declared),
        }
    }
}

/// A row's sources, checked: every failure is a mistake of whoever wrote the row, and is found before the row is.
pub open spec fn sources_of(
    read: Result<SourceSetView, Seq<char>>,
    input_schema: JsonView,
) -> Result<SourceSetView, Seq<char>> {
    match read {
        Err(error) => Err("sources: "@ + error),
        Ok(set) => if set.sources.len() == 0 {
            Err("sources must list at least one source"@)
        } else if set.take == 0 || set.take > set.sources.len() {
            Err(
                "take must be between 1 and the "@ + dec(set.sources.len()) + " sources listed, got "@
                    + dec(set.take as nat),
            )
        } else if set.fan_out == 0 {
            Err("fan_out must be at least 1"@)
        } else {
            match sources_fault(set.sources, 0, declared_of(input_schema)) {
                Some(fault) => Err(fault),
                None => Ok(set),
            }
        },
    }
}

fn check_source(sources: &Vec<Source>, i: usize, declared: &Vec<String>) -> (fault: Option<String>)
    requires
        i < sources@.len(),
    ensures
        fault.deep_view() == source_fault(sources.deep_view(), i as int, declared.deep_view()),
{
    let ghost views = sources.deep_view();
    let source: &Source = &sources[i];
    assert(views[i as int] == source.deep_view());
    for k in 0..i
        invariant
            i < sources@.len(),
            views == sources.deep_view(),
            source.deep_view() == views[i as int],
            forall|j: int| 0 <= j < k ==> (#[trigger] views[j]).name != source.name@,
    {
        assert(views[k as int].name == sources@[k as int].name@);
        if same(sources[k].name.as_str(), source.name.as_str()) {
            return Some(
                cat3("source name ", quote(source.name.as_str()).as_str(), " is used more than once"),
            );
        }
    }
    if source.pick.as_str().is_empty() {
        return Some(cat3("source ", quote(source.name.as_str()).as_str(), " has an empty pick"));
    }
    let url_fault: Option<String> = check_template(
        source.name.as_str(),
        source.url.as_str(),
        declared,
    );
    if url_fault.is_some() {
        return url_fault;
    }
    check_template(source.name.as_str(), source.pick.as_str(), declared)
}

/// Checks what was read of a row's sources against the row's input schema.
pub fn parse_sources(read: Result<SourceSet, String>, input_schema: &Json) -> (parsed: Result<
    SourceSet,
    String,
>)
    ensures
        outcome(parsed) == sources_of(outcome(read), input_schema.deep_view()),
{
    let set: SourceSet = match read {
        Ok(set) => set,
        Err(error) => {
            return Err(cat2("sources: ", error.as_str()));
        },
    };
    if set.sources.len() == 0 {
        return Err("sources must list at least one source".to_owned());
    }
    if set.take == 0 || set.take > set.sources.len() {
        return Err(
            cat4(
                "take must be between 1 and the ",
                decimal(set.sources.len() as u64).as_str(),
                " sources listed, got ",
                decimal(set.take as u64).as_str(),
            ),
        );
    }
    if set.fan_out == 0 {
        return Err("fan_out must be at least 1".to_owned());
    }
    let declared: Vec<String> = declared_fields(input_schema);
    let ghost views = set.sources.deep_view();
    let ghost known = declared.deep_view();
    for i in 0..set.sources.len()
        invariant
            views == set.sources.deep_view(),
            known == declared.deep_view(),
            known == declared_of(input_schema.deep_view()),
            set.sources@.len() > 0,
            !(set.take == 0 || set.take > set.sources@.len()),
            set.fan_out != 0,
            outcome(read) == Ok::<SourceSetView, Seq<char>>(set.deep_view()),
            sources_fault(views, 0, known) == sources_fault(views, i as int, known),
    {
        if let Some(fault) = check_source(&set.sources, i, &declared) {
            return Err(fault);
        }
    }
    Ok(set)
}

/// A value as it is written into a template: a text as it is, anything else as its JSON text.
pub open spec fn plain_of(value: JsonView) -> Seq<char> {
    match value {
        JsonView::Text(text) => text,
        _ => json_text(value),
    }
}

fn plain(value: &Json) -> (text: String)
    ensures
        text@ == plain_of(value.deep_view()),
{
    match value {
        Json::Text(text) => text.clone(),
        _ => compact_text(value),
    }
}

/// A hexadecimal digit, in upper case.
pub open spec fn hex_digit(n: int) -> char {
    if n < 10 {
        (('0' as u32) + n) as char
    } else {
        (('A' as u32) + (n - 10)) as char
    }
}

/// The bytes that a form leaves as they are: ASCII letters and digits, and four signs.
pub open spec fn is_kept(byte: u8) -> bool {
    ||| 0x30 <= byte <= 0x39
    ||| 0x41 <= byte <= 0x5a
    ||| 0x61 <= byte <= 0x7a
    ||| byte == 0x2a
    ||| byte == 0x2d
    ||| byte == 0x2e
    ||| byte == 0x5f
}

/// One byte as a form writes it: itself, a plus sign for a space, or a percent sign and two digits.
pub open spec fn form_byte(byte: u8) -> Seq<char> {
    if is_kept(byte) {
        seq![byte as char]
    } else if byte == 0x20 {
        seq!['+']
    } else {
        seq!['%', hex_digit(byte as int / 16), hex_digit(byte as int % 16)]
    }
}

/// Bytes as a form writes them.
pub open spec fn form_encoded(bytes: Seq<u8>) -> Seq<char>
    decreases bytes.len(),
{
    if bytes.len() == 0 {
        seq![]
    } else {
        form_byte(bytes[0]) + form_encoded(bytes.drop_first())
    }
}

/// `url::form_urlencoded::byte_serialize`: the bytes of the text, each as `form_byte` says, one after another.
#[verifier::external_body]
fn form_encode(text: &str) -> (encoded: String)
    ensures
        encoded@ == form_encoded(vstd::utf8::encode_utf8(text@)),
{
    url::form_urlencoded::byte_serialize(text.as_bytes()).collect()
}

/// A value as it stands in a URL: percent-encoded, spaces included.
pub open spec fn url_value(plain: Seq<char>) -> Seq<char> {
    replaced(form_encoded(vstd::utf8::encode_utf8(plain)), "+"@, "%20"@)
}

/// How a value is written into a template.
#[derive(Clone, Copy, Debug, PartialEq, Eq, Structural)]
pub enum Rendering {
    /// Percent-encoded, so that it cannot reach into the structure of a URL.
    Url,
    /// As it is, refused where it holds the separator of a path.
    Path,
}

pub open spec fn rendered(rendering: Rendering, field: Seq<char>, plain: Seq<char>) -> Result<
    Seq<char>,
    Seq<char>,
> {
    match rendering {
        Rendering::Url => Ok(url_value(plain)),
        Rendering::Path => if contains_of(plain, PATH_SEPARATOR) {
            Err(
                quoted(field)
                    + " carries '.', which would read deeper into the reply than the pick describes"@,
            )
        } else {
            Ok(plain)
        },
    }
}

fn render(rendering: Rendering, field: &str, plain: &str) -> (text: Result<String, String>)
    ensures
        outcome(text) == rendered(rendering, field@, plain@),
{
    match rendering {
        Rendering::Url => {
            proof {
                reveal_strlit("+");
            }
            Ok(replace(form_encode(plain).as_str(), "+", "%20"))
        },
        Rendering::Path => if contains_char(plain, PATH_SEPARATOR) {
            Err(
                cat2(
                    quote(field).as_str(),
                    " carries '.', which would read deeper into the reply than the pick describes",
                ),
            )
        } else {
            Ok(plain.to_owned())
        },
    }
}

/// What is written for a field. A field the caller did not supply is an error: a URL that misses a coordinate would
/// still give a plausible answer about somewhere else.
pub open spec fn filling_of(rendering: Rendering, field: Seq<char>, input: JsonView) -> Result<
    Seq<char>,
    Seq<char>,
> {
    match input.get(field) {
        None => Err("input does not carry "@ + quoted(field)),
        Some(value) => rendered(rendering, field, plain_of(value)),
    }
}

fn filling(rendering: Rendering, field: &str, input: &Json) -> (text: Result<String, String>)
    ensures
        outcome(text) == filling_of(rendering, field@, input.deep_view()),
{
    match input.get(field) {
        None => Err(cat2("input does not carry ", quote(field).as_str())),
        Some(value) => render(rendering, field, plain(value).as_str()),
    }
}

/// The first placeholder of a template: what stands before it, its field, and what follows.
pub open spec fn hole_of(template: Seq<char>) -> Option<(Seq<char>, Seq<char>, Seq<char>)> {
    match find_of(template, '{') {
        Some(open) if 0 <= open < template.len() => {
            let inner = template.skip(open + 1);
            match find_of(inner, '}') {
                Some(close) if 0 <= close < inner.len() => Some(
                    (template.take(open), inner.take(close), inner.skip(close + 1)),
                ),
                _ => None,
            }
        },
        _ => None,
    }
}

/// Looks for the first placeholder from a position on, and gives the places of its braces.
fn next_hole(chars: &Vec<char>, at: usize) -> (hole: Option<(usize, usize)>)
    requires
        at <= chars@.len(),
    ensures
        (match hole {
            Some((open, close)) => at <= open < close < chars@.len() && hole_of(chars@.skip(at as int)) == Some(
                (
                    chars@.subrange(at as int, open as int),
                    chars@.subrange(open as int + 1, close as int),
                    chars@.skip(close as int + 1),
                ),
            ),
            None => hole_of(chars@.skip(at as int)) is None,
        }),
{
    let ghost rest = chars@.skip(at as int);
    assert(chars.len() == chars@.len());
    let before: usize = match find_from(chars, at, '{') {
        Some(before) => before,
        None => {
            return None;
        },
    };
    let open: usize = at + before;
    let ghost inner = chars@.skip(open as int + 1);
    assert(rest.skip(before as int + 1) =~= inner);
    match find_from(chars, open + 1, '}') {
        Some(length) => {
            let close: usize = open + 1 + length;
            assert(rest.take(before as int) =~= chars@.subrange(at as int, open as int));
            assert(inner.take(length as int) =~= chars@.subrange(open as int + 1, close as int));
            assert(inner.skip(length as int + 1) =~= chars@.skip(close as int + 1));
            Some((open, close))
        },
        None => None,
    }
}

/// A template filled in one pass: what stands before the first placeholder, the value of its field, and the rest
/// filled the same way. A value that was put in is never looked at again.
pub open spec fn filled_from(rendering: Rendering, template: Seq<char>, input: JsonView) -> Result<
    Seq<char>,
    Seq<char>,
>
    decreases template.len(),
{
    match hole_of(template) {
        None => Ok(template),
        Some((before, field, after)) => match filling_of(rendering, field, input) {
            Err(error) => Err(error),
            Ok(text) => behind(before + text, filled_from(rendering, after, input)),
        },
    }
}

/// A text that was made, behind another.
pub open spec fn behind(before: Seq<char>, made: Result<Seq<char>, Seq<char>>) -> Result<
    Seq<char>,
    Seq<char>,
> {
    match made {
        Ok(rest) => Ok(before + rest),
        Err(error) => Err(error),
    }
}

/// A template filled from an input. A brace that is left open is the first fault told, wherever it stands.
pub open spec fn filled_of(rendering: Rendering, template: Seq<char>, input: JsonView) -> Result<
    Seq<char>,
    Seq<char>,
> {
    match placeholders_of(template) {
        Err(error) => Err(error),
        Ok(_) => filled_from(rendering, template, input),
    }
}

fn substitute(rendering: Rendering, template: &str, input: &Json) -> (filled: Result<String, String>)
    ensures
        outcome(filled) == filled_of(rendering, template@, input.deep_view()),
{
    if let Err(error) = placeholders(template) {
        return Err(error);
    }
    let ghost whole = filled_from(rendering, template@, input.deep_view());
    let chars: Vec<char> = chars_of(template);
    let length: usize = chars.len();
    let mut filled: String = "".to_owned();
    let mut at: usize = 0;
    proof {
        reveal_strlit("");
        assert(chars@.skip(0) =~= template@);
        assert(behind(filled@, whole) == whole) by {
            if let Ok(text) = whole {
                assert(filled@ + text =~= text);
            }
        }
    }
    loop
        invariant
            at <= length,
            length == chars@.len(),
            whole == filled_from(rendering, template@, input.deep_view()),
            filled_of(rendering, template@, input.deep_view()) == whole,
            whole == behind(filled@, filled_from(rendering, chars@.skip(at as int), input.deep_view())),
        decreases length - at,
    {
        match next_hole(&chars, at) {
            None => {
                let tail: String = text_of(
                    vstd::slice::slice_subrange(chars.as_slice(), at, length),
                );
                assert(tail@ =~= chars@.skip(at as int));
                return Ok(cat2(filled.as_str(), tail.as_str()));
            },
            Some((open, close)) => {
                let before: String = text_of(vstd::slice::slice_subrange(chars.as_slice(), at, open));
                let field: String = text_of(
                    vstd::slice::slice_subrange(chars.as_slice(), open + 1, close),
                );
                match filling(rendering, field.as_str(), input) {
                    Err(error) => {
                        return Err(error);
                    },
                    Ok(text) => {
                        let ghost done = filled@;
                        let ghost rest = filled_from(
                            rendering,
                            chars@.skip(close as int + 1),
                            input.deep_view(),
                        );
                        filled = cat3(filled.as_str(), before.as_str(), text.as_str());
                        proof {
                            if let Ok(more) = rest {
                                assert(done + (before@ + text@ + more) =~= filled@ + more);
                            }
                        }
                        at = close + 1;
                    },
                }
            },
        }
    }
}

/// Fills every placeholder of a URL from an input, percent-encoding each value.
pub fn fill(template: &str, input: &Json) -> (filled: Result<String, String>)
    ensures
        outcome(filled) == filled_of(Rendering::Url, template@, input.deep_view()),
{
    substitute(Rendering::Url, template, input)
}

/// Fills every placeholder of a path from an input, as the values stand.
pub fn fill_path(template: &str, input: &Json) -> (filled: Result<String, String>)
    ensures
        outcome(filled) == filled_of(Rendering::Path, template@, input.deep_view()),
{
    substitute(Rendering::Path, template, input)
}

/// A segment indexes a list where it is all digits.
pub open spec fn is_index(segment: Seq<char>) -> bool {
    segment.len() > 0 && all_digits(segment)
}

/// One step of a path: into an object by key, or into a list by a segment of digits.
pub open spec fn step_into(value: JsonView, segment: Seq<char>) -> Option<JsonView> {
    match value.get(segment) {
        Some(found) => Some(found),
        None => match value {
            JsonView::Array(items) => if is_index(segment) && digits_value(segment) < items.len() {
                Some(items[digits_value(segment) as int])
            } else {
                None
            },
            _ => None,
        },
    }
}

/// The value at the end of a path. Absent is nothing, and so is a path that runs into a scalar.
pub open spec fn value_at(value: JsonView, segments: Seq<Seq<char>>) -> Option<JsonView>
    decreases segments.len(),
{
    if segments.len() == 0 {
        Some(value)
    } else {
        match step_into(value, segments[0]) {
            None => None,
            Some(next) => value_at(next, segments.drop_first()),
        }
    }
}

pub open spec fn picked(body: JsonView, path: Seq<char>) -> Option<JsonView> {
    value_at(body, split_of(path, PATH_SEPARATOR))
}

/// The place in a list that a segment names, where it is one at all.
fn index_in(segment: &str) -> (index: Option<usize>)
    ensures
        (match index {
            Some(i) => is_index(segment@) && digits_value(segment@) == i,
            None => is_index(segment@) ==> digits_value(segment@) > usize::MAX,
        }),
{
    let chars: Vec<char> = chars_of(segment);
    if chars.len() > 0 && chars[0] == '+' {
        assert(!is_digit(segment@[0]));
        return None;
    }
    parse_usize(segment)
}

fn stepped<'a>(value: &'a Json, segment: &str) -> (next: Option<&'a Json>)
    ensures
        next.deep_view() == step_into(value.deep_view(), segment@),
{
    if let Some(found) = value.get(segment) {
        return Some(found);
    }
    match value {
        Json::Array(items) => {
            let length: usize = items.len();
            match index_in(segment) {
                Some(i) if i < length => Some(&items[i]),
                _ => None,
            }
        },
        _ => None,
    }
}

/// Follows a dotted path into a reply. A segment of digits indexes a list; an object is still read by key first.
pub fn pick_value(body: &Json, path: &str) -> (value: Option<Json>)
    ensures
        value.deep_view() == picked(body.deep_view(), path@),
{
    let segments: Vec<String> = split(path, PATH_SEPARATOR);
    let ghost views = segments.deep_view();
    let mut here: &Json = body;
    assert(views.skip(0) =~= views);
    for i in 0..segments.len()
        invariant
            views == segments.deep_view(),
            value_at(here.deep_view(), views.skip(i as int)) == picked(body.deep_view(), path@),
    {
        let ghost rest = views.skip(i as int);
        assert(rest[0] == segments@[i as int]@);
        assert(rest.drop_first() =~= views.skip(i as int + 1));
        here = match stepped(here, segments[i].as_str()) {
            Some(next) => next,
            None => {
                return None;
            },
        };
    }
    Some(here.copy())
}

/// What a source asks for an input: the URL it is asked at and the path its answer stands at.
pub open spec fn request_of(source: SourceView, input: JsonView) -> Result<
    (Seq<char>, Seq<char>),
    Seq<char>,
> {
    match filled_of(Rendering::Url, source.url, input) {
        Err(error) => Err(error),
        Ok(url) => match filled_of(Rendering::Path, source.pick, input) {
            Err(error) => Err(error),
            Ok(pick) => Ok((url, pick)),
        },
    }
}

pub fn prepare(source: &Source, input: &Json) -> (request: Result<(String, String), String>)
    ensures
        outcome(request) == request_of(source.deep_view(), input.deep_view()),
{
    let url: String = fill(source.url.as_str(), input)?;
    let pick: String = fill_path(source.pick.as_str(), input)?;
    Ok((url, pick))
}

/// A source that is not asked, with the reason.
pub open spec fn refusal_of(name: Seq<char>, reason: Seq<char>) -> Seq<char> {
    name + ": "@ + reason
}

pub fn refusal(name: &str, reason: &str) -> (text: String)
    ensures
        text@ == refusal_of(name@, reason@),
{
    cat3(name, ": ", reason)
}

/// A source that is asked.
#[derive(Debug, PartialEq, Eq)]
pub struct Ready {
    pub name: String,
    pub url: String,
    pub pick: String,
}

pub struct ReadyView {
    pub name: Seq<char>,
    pub url: Seq<char>,
    pub pick: Seq<char>,
}

impl DeepView for Ready {
    type V = ReadyView;

    open spec fn deep_view(&self) -> ReadyView {
        ReadyView { name: self.name@, url: self.url@, pick: self.pick@ }
    }
}

/// The sources that are asked and those that are not: a source goes out exactly where its templates fill and the
/// guard lets its URL pass.
#[derive(Debug, PartialEq, Eq)]
pub struct Plan {
    pub ready: Vec<Ready>,
    pub refused: Vec<String>,
}

#[verifier::ext_equal]
pub struct PlanView {
    pub ready: Seq<ReadyView>,
    pub refused: Seq<Seq<char>>,
}

impl DeepView for Plan {
    type V = PlanView;

    open spec fn deep_view(&self) -> PlanView {
        PlanView { ready: self.ready.deep_view(), refused: self.refused.deep_view() }
    }
}

/// What a guard said of a source's URL: that it may pass, or why it may not.
pub open spec fn guarded(plan: PlanView, source: SourceView, input: JsonView, guard: Option<Seq<char>>) -> PlanView {
    match request_of(source, input) {
        Err(reason) => PlanView {
            refused: plan.refused.push(refusal_of(source.name, reason)),
            ..plan
        },
        Ok((url, pick)) => match guard {
            Some(reason) => PlanView {
                refused: plan.refused.push(refusal_of(source.name, reason)),
                ..plan
            },
            None => PlanView {
                ready: plan.ready.push(ReadyView { name: source.name, url, pick }),
                ..plan
            },
        },
    }
}

/// The plan for a list of sources, given what the guard says of each URL.
pub open spec fn plan_of(
    sources: Seq<SourceView>,
    input: JsonView,
    guards: Seq<Option<Seq<char>>>,
) -> PlanView
    decreases sources.len(),
{
    if sources.len() == 0 {
        PlanView { ready: seq![], refused: seq![] }
    } else {
        guarded(
            plan_of(sources.drop_last(), input, guards),
            sources.last(),
            input,
            guards[sources.len() - 1],
        )
    }
}

/// Plans a run. A source whose templates do not fill needs no verdict of the guard: whatever stands for it is not
/// looked at.
pub fn plan(set: &SourceSet, input: &Json, guards: &Vec<Option<String>>) -> (plan: Plan)
    requires
        guards@.len() == set.sources@.len(),
    ensures
        plan.deep_view() == plan_of(
            set.sources.deep_view(),
            input.deep_view(),
            guards.deep_view(),
        ),
{
    let ghost views = set.sources.deep_view();
    let ghost said = guards.deep_view();
    let mut ready: Vec<Ready> = Vec::new();
    let mut refused: Vec<String> = Vec::new();
    assert(ready.deep_view() =~= seq![]);
    assert(refused.deep_view() =~= seq![]);
    for i in 0..set.sources.len()
        invariant
            views == set.sources.deep_view(),
            said == guards.deep_view(),
            guards@.len() == set.sources@.len(),
            plan_of(views.take(i as int), input.deep_view(), said) == (PlanView {
                ready: ready.deep_view(),
                refused: refused.deep_view(),
            }),
    {
        let source: &Source = &set.sources[i];
        assert(views.take(i as int + 1).drop_last() =~= views.take(i as int));
        assert(views.take(i as int + 1).last() == source.deep_view());
        assert(said[i as int] == guards@[i as int].deep_view());
        match prepare(source, input) {
            Err(reason) => {
                keep(&mut refused, refusal(source.name.as_str(), reason.as_str()));
            },
            Ok((url, pick)) => match &guards[i] {
                Some(reason) => {
                    keep(&mut refused, refusal(source.name.as_str(), reason.as_str()));
                },
                None => {
                    keep(&mut ready, Ready { name: source.name.clone(), url, pick });
                },
            },
        }
    }
    assert(views.take(views.len() as int) =~= views);
    Plan { ready, refused }
}

/// An answer with the source that gave it.
pub open spec fn answer_json(answer: (Seq<char>, JsonView)) -> JsonView {
    JsonView::Object(seq![("source"@, JsonView::Text(answer.0)), ("value"@, answer.1)])
}

/// What a run comes to. Two answers are returned as two answers: nothing here averages or picks between them.
pub open spec fn run_of(
    refused: Seq<Seq<char>>,
    taken: Seq<(Seq<char>, JsonView)>,
    failures: Seq<Seq<char>>,
) -> Result<JsonView, Seq<char>> {
    if taken.len() == 0 {
        Err(
            "every source failed — "@ + crate::text::joined_with(refused + failures, "; "@),
        )
    } else {
        Ok(
            JsonView::Object(
                seq![
                    (
                        "values"@,
                        JsonView::Array(
                            taken.map_values(|answer: (Seq<char>, JsonView)| answer_json(answer)),
                        ),
                    ),
                ],
            ),
        )
    }
}

pub fn conclude(refused: Vec<String>, taken: &Vec<(String, Json)>, failures: &Vec<String>) -> (result: Result<
    Json,
    String,
>)
    ensures
        outcome(result) == run_of(refused.deep_view(), taken.deep_view(), failures.deep_view()),
{
    if taken.len() == 0 {
        let mut reasons: Vec<String> = refused;
        let ghost first = reasons.deep_view();
        let ghost then = failures.deep_view();
        assert(first + then.take(0) =~= first);
        for i in 0..failures.len()
            invariant
                then == failures.deep_view(),
                reasons.deep_view() == first + then.take(i as int),
        {
            keep(&mut reasons, failures[i].clone());
            assert(reasons.deep_view() =~= first + then.take(i as int + 1));
        }
        assert(then.take(then.len() as int) =~= then);
        return Err(
            cat2("every source failed — ", crate::text::join(&reasons, "; ").as_str()),
        );
    }
    let mut values: Vec<Json> = Vec::new();
    for i in 0..taken.len()
        invariant
            values@.len() == i,
            forall|k: int|
                0 <= k < i ==> (#[trigger] values@[k]).deep_view() == answer_json(
                    (taken@[k].0@, taken@[k].1.deep_view()),
                ),
    {
        let mut entries: Vec<(String, Json)> = Vec::new();
        entries.push(("source".to_owned(), Json::Text(taken[i].0.clone())));
        entries.push(("value".to_owned(), taken[i].1.copy()));
        assert(entry_views(entries@) =~= answer_json(
            (taken@[i as int].0@, taken@[i as int].1.deep_view()),
        )->Object_0);
        values.push(Json::Object(entries));
    }
    assert(values.deep_view() =~= taken.deep_view().map_values(
        |answer: (Seq<char>, JsonView)| answer_json(answer),
    ));
    let mut body: Vec<(String, Json)> = Vec::new();
    body.push(("values".to_owned(), Json::Array(values)));
    assert(entry_views(body@) =~= seq![
        (
            "values"@,
            JsonView::Array(
                taken.deep_view().map_values(
                    |answer: (Seq<char>, JsonView)| answer_json(answer),
                ),
            ),
        ),
    ]);
    Ok(Json::Object(body))
}

/// The answer in a reply, given what was parsed of it.
pub open spec fn answer_of(parsed: Result<JsonView, Seq<char>>, pick: Seq<char>) -> Result<
    JsonView,
    Seq<char>,
> {
    match parsed {
        Err(error) => Err("reply is not JSON: "@ + error),
        Ok(body) => match picked(body, pick) {
            Some(value) => Ok(value),
            None => Err("reply carries no "@ + quoted(pick)),
        },
    }
}

pub fn answer_in(parsed: Result<Json, String>, pick: &str) -> (answer: Result<Json, String>)
    ensures
        outcome(answer) == answer_of(outcome(parsed), pick@),
{
    match parsed {
        Err(error) => Err(cat2("reply is not JSON: ", error.as_str())),
        Ok(body) => match pick_value(&body, pick) {
            Some(value) => Ok(value),
            None => Err(cat2("reply carries no ", quote(pick).as_str())),
        },
    }
}

/// What a source answered: refused where its status is not one of success or its reply is too large.
pub open spec fn reply_of(status: u16, body: Seq<u8>, pick: Seq<char>) -> Result<JsonView, Seq<char>> {
    if !(200 <= status < 300) {
        Err("returned "@ + status_text(status))
    } else if body.len() > MAX_BODY_BYTES {
        Err("replied with more than "@ + dec(MAX_BODY_BYTES as nat) + " bytes"@)
    } else {
        answer_of(json_parsed(body), pick)
    }
}

/// Reads a reply. Whoever reads it off the wire may stop as soon as it holds more than a reply may.
pub fn read_reply(status: u16, body: &Vec<u8>, pick: &str) -> (answer: Result<Json, String>)
    ensures
        outcome(answer) == reply_of(status, body@, pick@),
{
    if !(status >= 200 && status < 300) {
        return Err(cat2("returned ", show_status(status).as_str()));
    }
    if body.len() > MAX_BODY_BYTES {
        return Err(
            cat3("replied with more than ", decimal(MAX_BODY_BYTES as u64).as_str(), " bytes"),
        );
    }
    answer_in(parse(body.as_slice()), pick)
}

/// A reply that is too large is refused as soon as that is known: whatever follows changes nothing.
pub proof fn law_an_oversized_reply_stays_refused(status: u16, body: Seq<u8>, more: Seq<u8>, pick: Seq<char>)
    requires
        body.len() > MAX_BODY_BYTES,
    ensures
        reply_of(status, body + more, pick) == reply_of(status, body, pick),
        reply_of(status, body, pick) is Err,
{
}

/// The characters a filled value may add to a URL: ASCII letters and digits, four signs, and the percent sign.
pub open spec fn is_harmless(c: char) -> bool {
    ||| '0' <= c <= '9'
    ||| 'A' <= c <= 'Z'
    ||| 'a' <= c <= 'z'
    ||| c == '*'
    ||| c == '-'
    ||| c == '.'
    ||| c == '_'
    ||| c == '%'
}

pub open spec fn all_harmless(text: Seq<char>) -> bool {
    forall|i: int| 0 <= i < text.len() ==> is_harmless(#[trigger] text[i])
}

pub open spec fn all_form(text: Seq<char>) -> bool {
    forall|i: int| 0 <= i < text.len() ==> is_harmless(#[trigger] text[i]) || text[i] == '+'
}

proof fn lemma_form_is_form(bytes: Seq<u8>)
    ensures
        all_form(form_encoded(bytes)),
    decreases bytes.len(),
{
    if bytes.len() > 0 {
        lemma_form_is_form(bytes.drop_first());
        let first = form_byte(bytes[0]);
        let rest = form_encoded(bytes.drop_first());
        assert forall|i: int| 0 <= i < (first + rest).len() implies is_harmless(
            #[trigger] (first + rest)[i],
        ) || (first + rest)[i] == '+' by {
            if i < first.len() {
                assert((first + rest)[i] == first[i]);
            } else {
                assert((first + rest)[i] == rest[i - first.len()]);
            }
        }
    }
}

proof fn lemma_spaces_replaced(text: Seq<char>)
    requires
        all_form(text),
    ensures
        all_harmless(replaced(text, "+"@, "%20"@)),
    decreases text.len(),
{
    reveal_strlit("+");
    reveal_strlit("%20");
    if text.len() > 0 {
        if crate::text::starts_with_of(text, "+"@) {
            let rest = text.skip(1);
            assert forall|i: int| 0 <= i < rest.len() implies is_harmless(#[trigger] rest[i]) || rest[i]
                == '+' by {
                assert(rest[i] == text[i + 1]);
            }
            lemma_spaces_replaced(rest);
            let tail = replaced(rest, "+"@, "%20"@);
            assert forall|i: int| 0 <= i < ("%20"@ + tail).len() implies is_harmless(
                #[trigger] ("%20"@ + tail)[i],
            ) by {
                if i >= 3 {
                    assert(("%20"@ + tail)[i] == tail[i - 3]);
                } else {
                    assert(("%20"@ + tail)[i] == "%20"@[i]);
                }
            }
        } else {
            assert(text[0] != '+') by {
                if text[0] == '+' {
                    assert(text.take(1) =~= "+"@);
                }
            }
            let rest = text.drop_first();
            assert forall|i: int| 0 <= i < rest.len() implies is_harmless(#[trigger] rest[i]) || rest[i]
                == '+' by {
                assert(rest[i] == text[i + 1]);
            }
            lemma_spaces_replaced(rest);
            let tail = replaced(rest, "+"@, "%20"@);
            assert forall|i: int| 0 <= i < (seq![text[0]] + tail).len() implies is_harmless(
                #[trigger] (seq![text[0]] + tail)[i],
            ) by {
                if i >= 1 {
                    assert((seq![text[0]] + tail)[i] == tail[i - 1]);
                }
            }
        }
    }
}

/// A value filled into a URL cannot reach into its structure: whatever the value, what is written holds neither a
/// slash, a question mark, a number sign, an ampersand nor a brace.
pub proof fn law_a_filled_value_cannot_restructure_a_url(plain: Seq<char>)
    ensures
        all_harmless(url_value(plain)),
{
    let bytes = vstd::utf8::encode_utf8(plain);
    lemma_form_is_form(bytes);
    lemma_spaces_replaced(form_encoded(bytes));
}

/// A value filled into a path cannot walk deeper than the template says: the filled path holds no more separators
/// than its template.
pub proof fn law_a_filled_path_is_no_deeper(template: Seq<char>, input: JsonView)
    requires
        filled_of(Rendering::Path, template, input) is Ok,
    ensures
        occurrences(filled_of(Rendering::Path, template, input)->Ok_0, PATH_SEPARATOR) <= occurrences(
            template,
            PATH_SEPARATOR,
        ),
{
    lemma_filled_path_is_no_deeper(template, input);
}

proof fn lemma_filled_path_is_no_deeper(template: Seq<char>, input: JsonView)
    requires
        filled_from(Rendering::Path, template, input) is Ok,
    ensures
        occurrences(filled_from(Rendering::Path, template, input)->Ok_0, PATH_SEPARATOR) <= occurrences(
            template,
            PATH_SEPARATOR,
        ),
    decreases template.len(),
{
    if let Some((before, field, after)) = hole_of(template) {
        lemma_filled_path_is_no_deeper(after, input);
        let text = filling_of(Rendering::Path, field, input)->Ok_0;
        let rest = filled_from(Rendering::Path, after, input)->Ok_0;
        lemma_occurrences_concat(before + text, rest, PATH_SEPARATOR);
        lemma_occurrences_concat(before, text, PATH_SEPARATOR);
        lemma_occurrences_none(text, PATH_SEPARATOR);
        let hole = template.skip(before.len() as int).take(field.len() as int + 2);
        assert(template =~= before + (hole + after));
        lemma_occurrences_concat(before, hole + after, PATH_SEPARATOR);
        lemma_occurrences_concat(hole, after, PATH_SEPARATOR);
    }
}

proof fn lemma_none_undeclared(fields: Seq<Seq<char>>, declared: Seq<Seq<char>>)
    requires
        undeclared(fields, declared) is None,
    ensures
        forall|i: int| 0 <= i < fields.len() ==> declared.contains(#[trigger] fields[i]),
    decreases fields.len(),
{
    if fields.len() > 0 {
        lemma_none_undeclared(fields.drop_first(), declared);
        assert forall|i: int| 0 <= i < fields.len() implies declared.contains(#[trigger] fields[i]) by {
            if i > 0 {
                assert(fields.drop_first()[i - 1] == fields[i]);
            }
        }
    }
}

proof fn lemma_filled_where_carried(template: Seq<char>, input: JsonView)
    requires
        fields_of(template) is Some,
        forall|i: int|
            0 <= i < fields_of(template)->Some_0.len() ==> input.get(
                #[trigger] fields_of(template)->Some_0[i],
            ) is Some,
    ensures
        filled_from(Rendering::Url, template, input) is Ok,
    decreases template.len(),
{
    if let Some((before, field, after)) = hole_of(template) {
        let fields = fields_of(template)->Some_0;
        let rest = fields_of(after)->Some_0;
        assert(fields == seq![field] + rest);
        assert(input.get(fields[0]) is Some);
        assert forall|i: int| 0 <= i < rest.len() implies input.get(#[trigger] rest[i]) is Some by {
            assert(fields[i + 1] == rest[i]);
        }
        lemma_filled_where_carried(after, input);
    }
}

proof fn lemma_no_source_fault(sources: Seq<SourceView>, from: int, declared: Seq<Seq<char>>, i: int)
    requires
        sources_fault(sources, from, declared) is None,
        0 <= from <= i < sources.len(),
    ensures
        source_fault(sources, i, declared) is None,
    decreases i - from,
{
    if from < i {
        lemma_no_source_fault(sources, from + 1, declared, i);
    }
}

/// A row that passes its check can be asked: its sources have different names, every one has a pick, it wants no more
/// answers than it has sources, and an input that carries every declared field fills every URL.
pub proof fn law_a_checked_row_can_be_asked(set: SourceSetView, schema: JsonView, input: JsonView, i: int)
    requires
        sources_of(Ok(set), schema) is Ok,
        0 <= i < set.sources.len(),
        forall|k: int|
            0 <= k < declared_of(schema).len() ==> input.get(#[trigger] declared_of(schema)[k]) is Some,
    ensures
        sources_of(Ok(set), schema) == Ok::<SourceSetView, Seq<char>>(set),
        0 < set.take <= set.sources.len(),
        0 < set.fan_out,
        set.sources[i].pick.len() > 0,
        forall|k: int| 0 <= k < i ==> (#[trigger] set.sources[k]).name != set.sources[i].name,
        filled_of(Rendering::Url, set.sources[i].url, input) is Ok,
        placeholders_of(set.sources[i].pick) is Ok,
{
    let declared = declared_of(schema);
    lemma_no_source_fault(set.sources, 0, declared, i);
    let fields = fields_of(set.sources[i].url)->Some_0;
    lemma_none_undeclared(fields, declared);
    assert forall|k: int| 0 <= k < fields.len() implies input.get(#[trigger] fields[k]) is Some by {
        let at = choose|at: int| 0 <= at < declared.len() && declared[at] == fields[k];
        assert(input.get(declared[at]) is Some);
    }
    lemma_filled_where_carried(set.sources[i].url, input);
}

/// No request goes out for a source whose templates do not fill or whose URL the guard refuses: what is ready was
/// filled and let pass, and every source is either ready or refused.
pub proof fn law_nothing_unguarded_is_asked(
    sources: Seq<SourceView>,
    input: JsonView,
    guards: Seq<Option<Seq<char>>>,
)
    requires
        guards.len() >= sources.len(),
    ensures
        plan_of(sources, input, guards).ready.len() + plan_of(sources, input, guards).refused.len()
            == sources.len(),
        forall|r: int|
            0 <= r < plan_of(sources, input, guards).ready.len() ==> exists|i: int|
                0 <= i < sources.len() && is_ready_for(
                    #[trigger] plan_of(sources, input, guards).ready[r],
                    #[trigger] sources[i],
                    input,
                    guards[i],
                ),
    decreases sources.len(),
{
    if sources.len() > 0 {
        let shorter = sources.drop_last();
        law_nothing_unguarded_is_asked(shorter, input, guards);
        let before = plan_of(shorter, input, guards);
        let now = plan_of(sources, input, guards);
        assert forall|r: int| 0 <= r < now.ready.len() implies exists|i: int|
            0 <= i < sources.len() && is_ready_for(
                #[trigger] now.ready[r],
                #[trigger] sources[i],
                input,
                guards[i],
            ) by {
            if r < before.ready.len() {
                assert(now.ready[r] == before.ready[r]);
                let i = choose|i: int|
                    0 <= i < shorter.len() && is_ready_for(
                        before.ready[r],
                        #[trigger] shorter[i],
                        input,
                        guards[i],
                    );
                assert(shorter[i] == sources[i]);
            } else {
                let last = sources.len() - 1;
                assert(is_ready_for(now.ready[r], sources[last], input, guards[last]));
            }
        }
    }
}

/// A request that is asked is a source filled from the input, and the guard let its URL pass.
pub open spec fn is_ready_for(
    ready: ReadyView,
    source: SourceView,
    input: JsonView,
    guard: Option<Seq<char>>,
) -> bool {
    &&& guard is None
    &&& ready.name == source.name
    &&& request_of(source, input) == Ok::<(Seq<char>, Seq<char>), Seq<char>>((ready.url, ready.pick))
}

/// Where some source answered, the result holds one item for each answer taken, in their order: under "source" the
/// name of the source that gave it, under "value" the value that this very source gave. Where none did, every reason is
/// told.
pub proof fn law_every_answer_stands_with_its_own_source(
    refused: Seq<Seq<char>>,
    taken: Seq<(Seq<char>, JsonView)>,
    failures: Seq<Seq<char>>,
    i: int,
)
    ensures
        run_of(refused, taken, failures) is Ok <==> taken.len() > 0,
        taken.len() > 0 ==> run_of(refused, taken, failures)->Ok_0.at("values"@) is Array
            && run_of(refused, taken, failures)->Ok_0.at("values"@)->Array_0.len() == taken.len(),
        0 <= i < taken.len() ==> {
            let item = run_of(refused, taken, failures)->Ok_0.at("values"@)->Array_0[i];
            &&& item.at("source"@) == JsonView::Text(taken[i].0)
            &&& item.at("value"@) == taken[i].1
        },
        taken.len() == 0 && 0 <= i < refused.len() ==> exists|at: int| #[trigger]
            stands_at(run_of(refused, taken, failures)->Err_0, at, refused[i]),
        taken.len() == 0 && 0 <= i < failures.len() ==> exists|at: int| #[trigger]
            stands_at(run_of(refused, taken, failures)->Err_0, at, failures[i]),
{
    if taken.len() > 0 {
        let outer = run_of(refused, taken, failures)->Ok_0->Object_0;
        lemma_holds(outer, 0);
        if 0 <= i < taken.len() {
            let entries = answer_json(taken[i])->Object_0;
            reveal_strlit("source");
            reveal_strlit("value");
            assert(entries[0].0.len() != entries[1].0.len());
            lemma_holds(entries, 0);
            lemma_holds(entries, 1);
        }
    } else {
        let reasons = refused + failures;
        let start = "every source failed — "@;
        if 0 <= i < refused.len() {
            assert(reasons[i] == refused[i]);
            let at = lemma_reason_stands(start, reasons, i);
            assert(stands_at(run_of(refused, taken, failures)->Err_0, at, refused[i]));
        }
        if 0 <= i < failures.len() {
            assert(reasons[refused.len() + i] == failures[i]);
            let at = lemma_reason_stands(start, reasons, refused.len() + i);
            assert(stands_at(run_of(refused, taken, failures)->Err_0, at, failures[i]));
        }
    }
}

proof fn lemma_reason_stands(start: Seq<char>, reasons: Seq<Seq<char>>, i: int) -> (place: int)
    requires
        0 <= i < reasons.len(),
    ensures
        stands_at(start + joined_with(reasons, "; "@), place, reasons[i]),
{
    law_every_part_stands_in_the_joined_text(reasons, "; "@, i);
    let joined = joined_with(reasons, "; "@);
    let at = choose|at: int| #[trigger] stands_at(joined, at, reasons[i]);
    assert((start + joined).subrange(start.len() + at, start.len() + at + reasons[i].len())
        =~= joined.subrange(at, at + reasons[i].len()));
    start.len() + at
}

/// A path of one segment reads an object by key, a list by place, and nothing else; a longer one goes on from where a
/// shorter one ends.
pub proof fn law_a_path_is_walked_segment_by_segment(
    value: JsonView,
    segment: Seq<char>,
    rest: Seq<Seq<char>>,
)
    ensures
        value_at(value, Seq::<Seq<char>>::empty()) == Some(value),
        value.get(segment) is Some ==> value_at(value, seq![segment]) == value.get(segment),
        value matches JsonView::Array(items) ==> (segment.len() > 0 && all_digits(segment) && digits_value(
            segment,
        ) < items.len() ==> value_at(value, seq![segment]) == Some(items[digits_value(segment) as int])),
        value !is Object && value !is Array ==> value_at(value, seq![segment]) is None,
        value is Object && value.get(segment) is None ==> value_at(value, seq![segment]) is None,
        value_at(value, seq![segment] + rest) == (match value_at(value, seq![segment]) {
            Some(next) => value_at(next, rest),
            None => None,
        }),
{
    let one = seq![segment];
    assert(one.drop_first() =~= Seq::<Seq<char>>::empty());
    assert((one + rest).drop_first() =~= rest);
    assert((one + rest)[0] == segment);
    reveal_with_fuel(value_at, 2);
}

/// What is picked from a reply is what stands at the end of the path, and a reply that fails, is too large, is no JSON
/// or holds nothing there is never an answer.
pub proof fn law_a_reply_answers_what_was_picked(status: u16, body: Seq<u8>, pick: Seq<char>)
    ensures
        reply_of(status, body, pick) matches Ok(value) ==> 200 <= status < 300 && body.len()
            <= MAX_BODY_BYTES && (json_parsed(body) matches Ok(parsed) && value_at(
            parsed,
            split_of(pick, PATH_SEPARATOR),
        ) == Some(value)),
        200 <= status < 300 && body.len() <= MAX_BODY_BYTES ==> (json_parsed(body) matches Ok(parsed) ==> (
        value_at(parsed, split_of(pick, PATH_SEPARATOR)) matches Some(value) ==> reply_of(
            status,
            body,
            pick,
        ) == Ok::<JsonView, Seq<char>>(value))),
        200 <= status < 300 && body.len() <= MAX_BODY_BYTES ==> (json_parsed(body) matches Err(error)
            ==> reply_of(status, body, pick) == Err::<JsonView, Seq<char>>(
            "reply is not JSON: "@ + error,
        )),
        !(200 <= status < 300) ==> reply_of(status, body, pick) == Err::<JsonView, Seq<char>>(
            "returned "@ + status_text(status),
        ),
{
}

/// A source that is ready is asked under its own name, at its own URL filled as a URL and with its own pick filled as a
/// path; one that is refused is told by its own name.
pub proof fn law_a_source_is_asked_as_itself(
    plan: PlanView,
    source: SourceView,
    input: JsonView,
    guard: Option<Seq<char>>,
)
    ensures
        ({
            let after = guarded(plan, source, input, guard);
            let url = filled_of(Rendering::Url, source.url, input);
            let pick = filled_of(Rendering::Path, source.pick, input);
            &&& url is Ok && pick is Ok && guard is None ==> after.refused == plan.refused
                && after.ready.len() == plan.ready.len() + 1 && after.ready.drop_last() == plan.ready
                && after.ready.last().name == source.name && url == Ok::<Seq<char>, Seq<char>>(
                after.ready.last().url,
            ) && pick == Ok::<Seq<char>, Seq<char>>(after.ready.last().pick)
            &&& url is Ok && pick is Ok ==> (guard matches Some(reason) ==> after.ready == plan.ready
                && after.refused == plan.refused.push(source.name + ": "@ + reason))
            &&& url matches Err(reason) ==> after.ready == plan.ready && after.refused == plan.refused.push(
                source.name + ": "@ + reason,
            )
            &&& url is Ok ==> (pick matches Err(reason) ==> after.ready == plan.ready && after.refused
                == plan.refused.push(source.name + ": "@ + reason))
        }),
{
    let after = guarded(plan, source, input, guard);
    if after.ready.len() > plan.ready.len() {
        assert(after.ready.drop_last() =~= plan.ready);
    }
}

/// A template without a brace is left as it is; with one placeholder, what stands around it stays and the value of its
/// own field takes its place.
pub proof fn law_a_placeholder_takes_the_value_of_its_field(
    rendering: Rendering,
    before: Seq<char>,
    field: Seq<char>,
    after: Seq<char>,
    input: JsonView,
)
    requires
        !before.contains('{'),
        !field.contains('}'),
        !after.contains('{'),
    ensures
        filled_from(rendering, after, input) == Ok::<Seq<char>, Seq<char>>(after),
        ({
            let filled = filled_from(rendering, before + seq!['{'] + field + seq!['}'] + after, input);
            &&& filled is Ok ==> input.get(field) is Some
            &&& input.get(field) matches Some(JsonView::Text(text)) ==> (rendering == Rendering::Path
                && !text.contains(PATH_SEPARATOR) ==> filled == Ok::<Seq<char>, Seq<char>>(
                before + text + after,
            ))
            &&& input.get(field) matches Some(value) ==> (rendering == Rendering::Url && value !is Text
                ==> filled == Ok::<Seq<char>, Seq<char>>(before + url_value(json_text(value)) + after))
            &&& input.get(field) matches Some(JsonView::Text(text)) ==> (rendering == Rendering::Url
                ==> filled == Ok::<Seq<char>, Seq<char>>(before + url_value(text) + after))
        }),
{
    let template = before + seq!['{'] + field + seq!['}'] + after;
    lemma_find(after, '{');
    lemma_find(template, '{');
    let open = before.len() as int;
    assert(template[open] == '{');
    assert forall|k: int| 0 <= k < open implies template[k] != '{' by {
        assert(template[k] == before[k]);
        assert(before.contains(before[k]));
    }
    assert(find_of(template, '{') == Some(open));
    let inner = template.skip(open + 1);
    assert(inner =~= field + seq!['}'] + after);
    lemma_find(inner, '}');
    let close = field.len() as int;
    assert(inner[close] == '}');
    assert forall|k: int| 0 <= k < close implies inner[k] != '}' by {
        assert(inner[k] == field[k]);
        assert(field.contains(field[k]));
    }
    assert(find_of(inner, '}') == Some(close));
    assert(template.take(open) =~= before);
    assert(inner.take(close) =~= field);
    assert(inner.skip(close + 1) =~= after);
    assert(hole_of(template) == Some((before, field, after)));
    if find_of(after, '{') is Some {
        assert(after.contains(after[find_of(after, '{')->Some_0]));
    }
    assert(hole_of(after) is None);
    if let Some(JsonView::Text(text)) = input.get(field) {
        assert(!text.contains(PATH_SEPARATOR) ==> !contains_of(text, PATH_SEPARATOR));
    }
}

/// A field is declared exactly where the schema has a property of its name.
pub proof fn law_a_field_is_declared_by_its_property(schema: JsonView, field: Seq<char>)
    ensures
        declared_of(schema).contains(field) <==> schema.at("properties"@).get(field) is Some,
{
    if let JsonView::Object(properties) = schema.at("properties"@) {
        law_a_key_finds_its_first_entry(properties, field);
        let names = declared_of(schema);
        if names.contains(field) {
            let i = choose|i: int| 0 <= i < names.len() && names[i] == field;
            assert(properties[i].0 == field);
        }
        if schema.at("properties"@).get(field) is Some {
            let i = choose|i: int| 0 <= i < properties.len() && (#[trigger] properties[i]).0 == field;
            assert(names[i] == field);
        }
    }
}

/// A template names the fields between its braces, in their order.
pub proof fn law_a_template_names_its_fields(before: Seq<char>, field: Seq<char>, after: Seq<char>)
    requires
        !before.contains('{'),
        !field.contains('}'),
    ensures
        fields_of(before) == Some(Seq::<Seq<char>>::empty()),
        fields_of(before + seq!['{'] + field) is None,
        fields_of(before + seq!['{'] + field + seq!['}'] + after) == (match fields_of(after) {
            Some(rest) => Some(seq![field] + rest),
            None => None,
        }),
{
    lemma_find(before, '{');
    if find_of(before, '{') is Some {
        assert(before.contains(before[find_of(before, '{')->Some_0]));
    }
    lemma_brace(before, field);
    lemma_brace(before, field + seq!['}'] + after);
    assert(before + seq!['{'] + (field + seq!['}'] + after) =~= before + seq!['{'] + field + seq!['}'] + after);
    lemma_find(field, '}');
    if find_of(field, '}') is Some {
        assert(field.contains(field[find_of(field, '}')->Some_0]));
    }
    let inner = field + seq!['}'] + after;
    let close = field.len() as int;
    lemma_find(inner, '}');
    assert(inner[close] == '}');
    assert forall|k: int| 0 <= k < close implies inner[k] != '}' by {
        assert(inner[k] == field[k]);
        assert(field.contains(field[k]));
    }
    assert(find_of(inner, '}') == Some(close));
    assert(inner.take(close) =~= field);
    assert(inner.skip(close + 1) =~= after);
}

proof fn lemma_brace(before: Seq<char>, inner: Seq<char>)
    requires
        !before.contains('{'),
    ensures
        find_of(before + seq!['{'] + inner, '{') == Some(before.len() as int),
        (before + seq!['{'] + inner).skip(before.len() as int + 1) == inner,
{
    let text = before + seq!['{'] + inner;
    let open = before.len() as int;
    lemma_find(text, '{');
    assert(text[open] == '{');
    assert forall|k: int| 0 <= k < open implies text[k] != '{' by {
        assert(text[k] == before[k]);
        assert(before.contains(before[k]));
    }
    assert(text.skip(open + 1) =~= inner);
}

/// A template is in order: every brace is closed, and every field between braces is declared.
pub open spec fn is_in_order(template: Seq<char>, schema: JsonView) -> bool {
    fields_of(template) matches Some(fields) && forall|i: int|
        0 <= i < fields.len() ==> schema.at("properties"@).get(#[trigger] fields[i]) is Some
}

proof fn lemma_template_in_order(name: Seq<char>, template: Seq<char>, schema: JsonView)
    ensures
        template_fault(name, template, declared_of(schema)) is None <==> is_in_order(template, schema),
{
    let declared = declared_of(schema);
    if let Some(fields) = fields_of(template) {
        let wanted = |field: Seq<char>| !declared.contains(field);
        law_the_first_wanted_item_is_found(fields, wanted);
        assert forall|i: int| 0 <= i < fields.len() implies (wanted(#[trigger] fields[i]) <==> schema.at(
            "properties"@,
        ).get(fields[i]) is None) by {
            law_a_field_is_declared_by_its_property(schema, fields[i]);
        }
        if let Some(field) = undeclared(fields, declared) {
            let i = choose|i: int| 0 <= i < fields.len() && #[trigger] fields[i] == field && wanted(field);
            assert(schema.at("properties"@).get(fields[i]) is None);
        }
    }
}

proof fn lemma_all_sources_in_order(sources: Seq<SourceView>, from: int, declared: Seq<Seq<char>>)
    requires
        0 <= from,
        forall|i: int| from <= i < sources.len() ==> (#[trigger] source_fault(sources, i, declared)) is None,
    ensures
        sources_fault(sources, from, declared) is None,
    decreases sources.len() - from,
{
    if from < sources.len() {
        lemma_all_sources_in_order(sources, from + 1, declared);
    }
}

/// A source is in order where it stands: its name is not used before it, it has a pick, and both of its templates are in
/// order.
pub open spec fn source_in_order(sources: Seq<SourceView>, i: int, schema: JsonView) -> bool {
    &&& forall|k: int| 0 <= k < i ==> (#[trigger] sources[k]).name != sources[i].name
    &&& sources[i].pick.len() > 0
    &&& is_in_order(sources[i].url, schema)
    &&& is_in_order(sources[i].pick, schema)
}

proof fn lemma_source_in_order(sources: Seq<SourceView>, i: int, schema: JsonView)
    ensures
        source_fault(sources, i, declared_of(schema)) is None <==> source_in_order(sources, i, schema),
{
    lemma_template_in_order(sources[i].name, sources[i].url, schema);
    lemma_template_in_order(sources[i].name, sources[i].pick, schema);
}

/// A row is accepted exactly where it lists a source, wants no more answers than it has sources and at least one, runs at
/// least one at a time, and every source is in order; and then as it was written.
pub proof fn law_when_a_row_is_accepted(set: SourceSetView, schema: JsonView, error: Seq<char>)
    ensures
        sources_of(Ok(set), schema) is Ok <==> {
            &&& 1 <= set.take <= set.sources.len()
            &&& 1 <= set.fan_out
            &&& forall|i: int| 0 <= i < set.sources.len() ==> #[trigger] source_in_order(set.sources, i, schema)
        },
        sources_of(Ok(set), schema) matches Ok(kept) ==> kept == set,
        sources_of(Err(error), schema) == Err::<SourceSetView, Seq<char>>("sources: "@ + error),
{
    let declared = declared_of(schema);
    if sources_fault(set.sources, 0, declared) is None {
        assert forall|i: int| 0 <= i < set.sources.len() implies #[trigger] source_in_order(
            set.sources,
            i,
            schema,
        ) by {
            lemma_no_source_fault(set.sources, 0, declared, i);
            lemma_source_in_order(set.sources, i, schema);
        }
    } else if forall|i: int| 0 <= i < set.sources.len() ==> #[trigger] source_in_order(set.sources, i, schema) {
        assert forall|i: int| 0 <= i < set.sources.len() implies (#[trigger] source_fault(
            set.sources,
            i,
            declared,
        )) is None by {
            assert(source_in_order(set.sources, i, schema));
            lemma_source_in_order(set.sources, i, schema);
        }
        lemma_all_sources_in_order(set.sources, 0, declared);
    }
}

proof fn lemma_spaces_replaced_in_turn(first: Seq<char>, then: Seq<char>)
    ensures
        replaced(first + then, "+"@, "%20"@) == replaced(first, "+"@, "%20"@) + replaced(then, "+"@, "%20"@),
    decreases first.len(),
{
    reveal_strlit("+");
    assert("+"@ =~= seq!['+']);
    if first.len() == 0 {
        assert(first + then =~= then);
        assert(replaced(first, "+"@, "%20"@) =~= seq![]);
        assert(seq![] + replaced(then, "+"@, "%20"@) =~= replaced(then, "+"@, "%20"@));
    } else {
        let rest = first.drop_first();
        lemma_spaces_replaced_in_turn(rest, then);
        law_replacing_goes_from_left_to_right(first[0], rest, '+', "%20"@);
        law_replacing_goes_from_left_to_right(first[0], rest + then, '+', "%20"@);
        assert(seq![first[0]] + rest =~= first);
        assert(seq![first[0]] + (rest + then) =~= first + then);
        assert(replaced(first + then, "+"@, "%20"@) =~= replaced(first, "+"@, "%20"@) + replaced(
            then,
            "+"@,
            "%20"@,
        ));
    }
}

proof fn lemma_one_byte_in_a_url(byte: u8)
    ensures
        ({
            let one = replaced(form_byte(byte), "+"@, "%20"@);
            &&& is_kept(byte) ==> one == seq![byte as char]
            &&& !is_kept(byte) ==> one == seq!['%', hex_digit(byte as int / 16), hex_digit(byte as int % 16)]
        }),
{
    reveal_strlit("+");
    reveal_strlit("%20");
    assert("+"@ =~= seq!['+']);
    let none = Seq::<char>::empty();
    assert(replaced(none, "+"@, "%20"@) =~= none);
    if is_kept(byte) {
        let c = byte as char;
        assert(c != '+');
        law_replacing_goes_from_left_to_right(c, none, '+', "%20"@);
        assert(seq![c] + none =~= seq![c]);
    } else if byte == 0x20 {
        law_replacing_goes_from_left_to_right('+', none, '+', "%20"@);
        assert(seq!['+'] + none =~= seq!['+']);
        assert("%20"@ + none =~= "%20"@);
        assert("%20"@ =~= seq!['%', hex_digit(byte as int / 16), hex_digit(byte as int % 16)]);
    } else {
        let high = hex_digit(byte as int / 16);
        let low = hex_digit(byte as int % 16);
        assert(high != '+' && low != '+');
        law_replacing_goes_from_left_to_right(low, none, '+', "%20"@);
        assert(seq![low] + none =~= seq![low]);
        law_replacing_goes_from_left_to_right(high, seq![low], '+', "%20"@);
        assert(seq![high] + seq![low] =~= seq![high, low]);
        law_replacing_goes_from_left_to_right('%', seq![high, low], '+', "%20"@);
        assert(seq!['%'] + seq![high, low] =~= seq!['%', high, low]);
    }
}

/// A value goes into a URL byte by byte: an ASCII letter, a digit or one of four signs as itself, any other byte, a space
/// among them, as a percent sign and the two hexadecimal digits that come to it.
pub proof fn law_a_value_goes_into_a_url_byte_by_byte(byte: u8, rest: Seq<u8>)
    ensures
        ({
            let whole = replaced(form_encoded(seq![byte] + rest), "+"@, "%20"@);
            let after = replaced(form_encoded(rest), "+"@, "%20"@);
            let kept = 0x30 <= byte <= 0x39 || 0x41 <= byte <= 0x5a || 0x61 <= byte <= 0x7a || byte == 0x2a || byte
                == 0x2d || byte == 0x2e || byte == 0x5f;
            &&& kept ==> whole == seq![byte as char] + after
            &&& !kept ==> whole.len() == after.len() + 3 && whole[0] == '%' && crate::tool::tools::weather::hex_value(
                whole[1],
            ) * 16 + crate::tool::tools::weather::hex_value(whole[2]) == byte && whole.skip(3) == after
        }),
        forall|plain: Seq<char>| #[trigger]
            url_value(plain) == replaced(form_encoded(vstd::utf8::encode_utf8(plain)), "+"@, "%20"@),
{
    let bytes = seq![byte] + rest;
    assert(bytes.drop_first() =~= rest);
    assert(form_encoded(bytes) == form_byte(byte) + form_encoded(rest));
    lemma_spaces_replaced_in_turn(form_byte(byte), form_encoded(rest));
    lemma_one_byte_in_a_url(byte);
    let whole = replaced(form_encoded(bytes), "+"@, "%20"@);
    let after = replaced(form_encoded(rest), "+"@, "%20"@);
    if !is_kept(byte) {
        assert(whole.skip(3) =~= after);
    }
}

/// A value is written into a template as its text, or as its JSON where it is none.
pub proof fn law_a_value_is_written_as_its_text(value: JsonView)
    ensures
        value matches JsonView::Text(text) ==> plain_of(value) == text,
        value !is Text ==> plain_of(value) == json_text(value),
{
}

/// What is told of a source that is at fault: by its name, a name used before it, no pick, a brace left open, or a field
/// that the schema does not declare.
pub proof fn law_what_is_told_of_a_source(sources: Seq<SourceView>, i: int, schema: JsonView)
    requires
        0 <= i < sources.len(),
    ensures
        (exists|k: int| 0 <= k < i && (#[trigger] sources[k]).name == sources[i].name) ==> source_fault(
            sources,
            i,
            declared_of(schema),
        ) == Some("source name "@ + quoted(sources[i].name) + " is used more than once"@),
        (forall|k: int| 0 <= k < i ==> (#[trigger] sources[k]).name != sources[i].name) && sources[i].pick.len() == 0
            ==> source_fault(sources, i, declared_of(schema)) == Some(
            "source "@ + quoted(sources[i].name) + " has an empty pick"@,
        ),
        (forall|k: int| 0 <= k < i ==> (#[trigger] sources[k]).name != sources[i].name) && sources[i].pick.len() > 0
            && fields_of(sources[i].url) is None ==> source_fault(sources, i, declared_of(schema)) == Some(
            "source "@ + quoted(sources[i].name) + ": "@ + (quoted(sources[i].url)
                + " has a { with no closing }"@),
        ),
{
}

/// What is told of a row that lists no source, wants too few or too many answers, or runs none at a time.
pub proof fn law_what_is_told_of_a_row(set: SourceSetView, schema: JsonView)
    ensures
        set.sources.len() == 0 ==> sources_of(Ok(set), schema) == Err::<SourceSetView, Seq<char>>(
            "sources must list at least one source"@,
        ),
        set.sources.len() > 0 && !(1 <= set.take <= set.sources.len()) ==> sources_of(Ok(set), schema) == Err::<
            SourceSetView,
            Seq<char>,
        >(
            "take must be between 1 and the "@ + dec(set.sources.len()) + " sources listed, got "@ + dec(
                set.take as nat,
            ),
        ),
        1 <= set.take <= set.sources.len() && set.fan_out == 0 ==> sources_of(Ok(set), schema) == Err::<
            SourceSetView,
            Seq<char>,
        >("fan_out must be at least 1"@),
{
}

/// What is told where a template cannot be filled: the field that the input does not carry, or whose value would read
/// deeper into the reply.
pub proof fn law_what_is_told_where_a_template_does_not_fill(field: Seq<char>, input: JsonView, text: Seq<char>)
    ensures
        input.get(field) is None ==> filling_of(Rendering::Url, field, input) == Err::<Seq<char>, Seq<char>>(
            "input does not carry "@ + quoted(field),
        ),
        input.get(field) is None ==> filling_of(Rendering::Path, field, input) == Err::<Seq<char>, Seq<char>>(
            "input does not carry "@ + quoted(field),
        ),
        input.get(field) == Some(JsonView::Text(text)) && text.contains('.') ==> filling_of(
            Rendering::Path,
            field,
            input,
        ) == Err::<Seq<char>, Seq<char>>(
            quoted(field) + " carries '.', which would read deeper into the reply than the pick describes"@,
        ),
{
    if text.contains('.') {
        let k = choose|k: int| 0 <= k < text.len() && text[k] == '.';
        assert(contains_of(text, PATH_SEPARATOR));
    }
}

/// A template is filled from its first placeholder on: what stands before it stays, and the rest is filled the same way.
pub proof fn law_a_template_is_filled_from_its_first_placeholder(
    rendering: Rendering,
    before: Seq<char>,
    field: Seq<char>,
    after: Seq<char>,
    input: JsonView,
)
    requires
        !before.contains('{'),
        !field.contains('}'),
    ensures
        ({
            let whole = filled_from(rendering, before + seq!['{'] + field + seq!['}'] + after, input);
            let rest = filled_from(rendering, after, input);
            let text = filling_of(rendering, field, input);
            &&& text is Ok && rest is Ok ==> whole == Ok::<Seq<char>, Seq<char>>(
                before + text->Ok_0 + rest->Ok_0,
            )
            &&& text is Err ==> whole == text
            &&& text is Ok && rest is Err ==> whole == rest
        }),
{
    let template = before + seq!['{'] + field + seq!['}'] + after;
    let inner = field + seq!['}'] + after;
    lemma_brace(before, inner);
    assert(before + seq!['{'] + inner =~= template);
    let close = field.len() as int;
    lemma_find(inner, '}');
    assert(inner[close] == '}');
    assert forall|k: int| 0 <= k < close implies inner[k] != '}' by {
        assert(inner[k] == field[k]);
        assert(field.contains(field[k]));
    }
    assert(find_of(inner, '}') == Some(close));
    assert(template.take(before.len() as int) =~= before);
    assert(inner.take(close) =~= field);
    assert(inner.skip(close + 1) =~= after);
    assert(hole_of(template) == Some((before, field, after)));
}

/// The view of a source shows each of its parts under that part's own name.
pub proof fn law_the_view_of_a_source_is_its_own(source: Source)
    ensures
        source.deep_view().name == source.name@,
        source.deep_view().url == source.url@,
        source.deep_view().pick == source.pick@,
{
}

/// The view of a set of sources shows each of its parts under that part's own name.
pub proof fn law_the_view_of_a_source_set_is_its_own(source_set: SourceSet)
    ensures
        source_set.deep_view().fan_out == source_set.fan_out,
        source_set.deep_view().take == source_set.take,
        source_set.deep_view().sources == source_set.sources.deep_view(),
{
}

/// The view of a source that is ready shows each of its parts under that part's own name.
pub proof fn law_the_view_of_a_ready_is_its_own(ready: Ready)
    ensures
        ready.deep_view().name == ready.name@,
        ready.deep_view().url == ready.url@,
        ready.deep_view().pick == ready.pick@,
{
}

/// What is told of a field that the schema does not declare, of a reply that holds nothing at its pick, and of one that
/// is too large.
pub proof fn law_what_is_told_of_a_field_and_a_reply(
    name: Seq<char>,
    template: Seq<char>,
    field: Seq<char>,
    schema: JsonView,
    status: u16,
    body: Seq<u8>,
    pick: Seq<char>,
)
    ensures
        fields_of(template) == Some(seq![field]) && schema.at("properties"@).get(field) is None ==> template_fault(
            name,
            template,
            declared_of(schema),
        ) == Some(
            "source "@ + quoted(name) + " uses {"@ + field + "} in "@ + quoted(template)
                + ", which input_schema does not declare"@,
        ),
        200 <= status < 300 && body.len() > 262_144 ==> reply_of(status, body, pick) == Err::<JsonView, Seq<char>>(
            "replied with more than "@ + dec(262_144) + " bytes"@,
        ),
        200 <= status < 300 && body.len() <= 262_144 ==> (json_parsed(body) matches Ok(parsed) ==> (picked(
            parsed,
            pick,
        ) is None ==> reply_of(status, body, pick) == Err::<JsonView, Seq<char>>(
            "reply carries no "@ + quoted(pick),
        ))),
        forall|reason: Seq<char>| #[trigger]
            run_of(seq![], seq![], seq![reason]) == Err::<JsonView, Seq<char>>("every source failed — "@ + reason),
{
    law_a_field_is_declared_by_its_property(schema, field);
    let fields = seq![field];
    let declared = declared_of(schema);
    assert(fields[0] == field);
    assert forall|reason: Seq<char>| #[trigger] run_of(seq![], seq![], seq![reason]) == Err::<
        JsonView,
        Seq<char>,
    >("every source failed — "@ + reason) by {
        let none = Seq::<Seq<char>>::empty();
        assert(none + seq![reason] =~= seq![reason]);
    }
}

} // verus!
