//! Reading OpenPBR surfaces out of a MaterialX (`.mtlx`) document.
//!
//! The document is read as XML events. An `open_pbr_surface` element opens
//! a surface that starts from the spec defaults; `<input name type value/>`
//! children inside it set scalar parameters; its end tag completes it. A
//! self-closing `<open_pbr_surface/>` is a complete default surface. The
//! reading is turned into an ordered list of [`MtlxStep`]s; carrying them
//! out (which parses the `float` values) builds the surfaces.

use vstd::prelude::*;
use quick_xml::events::{BytesStart, Event};
use quick_xml::reader::Reader;
use crate::openpbr::{
    input_target_spec, is_scalar_type, is_scalar_type_spec, openpbr_input_target, MtlxError, OpenPbrParam,
};
use crate::text::{chars_of, str_eq, string_of, trim_chars, trim_spec};

verus! {

#[verifier::external_type_specification]
#[verifier::external_body]
#[verifier::reject_recursive_types(R)]
pub struct ExXmlReader<R>(Reader<R>);

#[verifier::external_type_specification]
#[verifier::external_body]
pub struct ExBytesStart<'i>(BytesStart<'i>);

/// A start or empty-element tag: its local name, and its attributes as the
/// reader yields them (local name and value, or the reader's message for a
/// malformed attribute).
#[derive(Clone, Debug)]
pub struct XmlTag {
    pub name: String,
    pub attributes: Vec<Result<(String, String), String>>,
}

/// One XML event, reduced to what surface extraction looks at.
#[derive(Clone, Debug)]
pub enum XmlEvent {
    Start(XmlTag),
    Empty(XmlTag),
    /// An end tag, by its local name.
    End(String),
    Eof,
    /// Text, comments, declarations and the like.
    Other,
}

/// `BytesStart::local_name` and `BytesStart::attributes` of a tag, each
/// attribute as its key's local name and its value, or the attribute
/// error's message. Nothing is promised of what the tag holds.
#[verifier::external_body]
fn xml_tag(e: &BytesStart) -> (r: XmlTag) {
    XmlTag {
        name: e.local_name().as_ref().to_string(),
        attributes: e.attributes()
            .map(|a| a.map(|a| (a.key.local_name().as_ref().to_string(), a.value.to_string())).map_err(|err| err.to_string()))
            .collect(),
    }
}

/// The events that quick-xml yields for a document read from a string with
/// text trimming on, through the end of the document (`Eof` included) or
/// the reader's first error (included). quick-xml's reader is a
/// deterministic function of the text and its configuration.
pub uninterp spec fn xml_events(xml: Seq<char>) -> Seq<Result<XmlEvent, String>>;

/// Whether an event ends a stream: the end of the document or an error.
pub open spec fn is_stream_end(ev: Result<XmlEvent, String>) -> bool {
    ev is Err || ev == Ok::<XmlEvent, String>(XmlEvent::Eof)
}

/// `Reader::from_str` with `Config::trim_text(true)`, then `read_event`
/// until `Event::Eof` or an error, each event converted variant by variant
/// (tags through [`xml_tag`]): the whole event stream, which is
/// [`xml_events`] of the text. This is the reading loop of quick-xml's own
/// documentation: the reader yields `Eof` at the end of its input, so the
/// stream ends with `Eof` or with the error that stopped it, and nothing
/// before that is either.
#[verifier::external_body]
fn read_xml_events(xml: &str) -> (r: Vec<Result<XmlEvent, String>>)
    ensures
        r@ == xml_events(xml@),
        r@.len() >= 1,
        is_stream_end(r@[r@.len() - 1]),
        forall|j: int| 0 <= j < r@.len() - 1 ==> !is_stream_end(#[trigger] r@[j]),
{
    let mut reader = Reader::from_str(xml);
    reader.config_mut().trim_text(true);
    let mut out = Vec::new();
    loop {
        out.push(match reader.read_event() {
            Ok(Event::Start(e)) => Ok(XmlEvent::Start(xml_tag(&e))),
            Ok(Event::Empty(e)) => Ok(XmlEvent::Empty(xml_tag(&e))),
            Ok(Event::End(e)) => Ok(XmlEvent::End(e.local_name().as_ref().to_string())),
            Ok(Event::Eof) => Ok(XmlEvent::Eof),
            Ok(_) => Ok(XmlEvent::Other),
            Err(e) => Err(e.to_string()),
        });
        if matches!(out.last(), Some(Err(_) | Ok(XmlEvent::Eof))) { return out; }
    }
}

/// The `name`, `type` and `value` attributes of an `<input>`.
#[derive(Clone, Debug, PartialEq, Eq)]
pub struct MtlxInput {
    pub name: String,
    pub type_token: String,
    pub value: String,
}

/// The attributes of an `<input>` read in order: the first malformed one
/// ends the reading with its message; otherwise the last `name`, `type` and
/// `value` attribute each win (absent ones are empty).
pub open spec fn input_of_spec(attrs: Seq<Result<(String, String), String>>) -> Result<(Seq<char>, Seq<char>, Seq<char>), Seq<char>>
    decreases attrs.len(),
{
    if attrs.len() == 0 {
        Ok((Seq::empty(), Seq::empty(), Seq::empty()))
    } else {
        match input_of_spec(attrs.drop_last()) {
            Err(m) => Err(m),
            Ok((n, t, v)) => match attrs.last() {
                Err(m) => Err(m@),
                Ok((k, x)) => if k@ == "name"@ {
                    Ok((x@, t, v))
                } else if k@ == "type"@ {
                    Ok((n, x@, v))
                } else if k@ == "value"@ {
                    Ok((n, t, x@))
                } else {
                    Ok((n, t, v))
                },
            },
        }
    }
}

fn copy_string(s: &String) -> (r: String)
    ensures
        r@ == s@,
{
    let cs = chars_of(s.as_str());
    string_of(cs.as_slice())
}

/// Reads an `<input>`'s attributes (see [`input_of_spec`]).
pub fn input_of(attrs: &Vec<Result<(String, String), String>>) -> (r: Result<MtlxInput, String>)
    ensures
        match r {
            Ok(i) => input_of_spec(attrs@) == Ok::<(Seq<char>, Seq<char>, Seq<char>), Seq<char>>((i.name@, i.type_token@, i.value@)),
            Err(m) => input_of_spec(attrs@) == Err::<(Seq<char>, Seq<char>, Seq<char>), Seq<char>>(m@),
        },
{
    let mut name = String::new();
    let mut type_token = String::new();
    let mut value = String::new();
    let mut i: usize = 0;
    while i < attrs.len()
        invariant
            i <= attrs@.len(),
            input_of_spec(attrs@.take(i as int)) == Ok::<(Seq<char>, Seq<char>, Seq<char>), Seq<char>>((name@, type_token@, value@)),
        decreases attrs.len() - i,
    {
        assert(attrs@.take(i + 1).drop_last() =~= attrs@.take(i as int));
        assert(attrs@.take(i + 1).last() == attrs@[i as int]);
        match &attrs[i] {
            Err(m) => {
                proof {
                    lemma_input_error_sticks(attrs@, i as int + 1);
                }
                return Err(copy_string(m));
            },
            Ok((k, x)) => {
                if str_eq(k.as_str(), "name") {
                    name = copy_string(x);
                } else if str_eq(k.as_str(), "type") {
                    type_token = copy_string(x);
                } else if str_eq(k.as_str(), "value") {
                    value = copy_string(x);
                }
            },
        }
        i = i + 1;
    }
    assert(attrs@.take(attrs@.len() as int) =~= attrs@);
    Ok(MtlxInput { name, type_token, value })
}

proof fn lemma_input_error_sticks(attrs: Seq<Result<(String, String), String>>, k: int)
    requires
        0 <= k <= attrs.len(),
        input_of_spec(attrs.take(k)) is Err,
    ensures
        input_of_spec(attrs) == input_of_spec(attrs.take(k)),
    decreases attrs.len() - k,
{
    if k < attrs.len() {
        assert(attrs.take(k + 1).drop_last() =~= attrs.take(k));
        lemma_input_error_sticks(attrs, k + 1);
    } else {
        assert(attrs.take(k) =~= attrs);
    }
}

/// One step of building the surfaces of a document.
#[derive(Clone, Debug)]
pub enum MtlxStep {
    /// Start a new current surface at the spec defaults (replacing one in
    /// progress).
    Open,
    /// Append a complete surface at the spec defaults.
    PushDefault,
    /// Set `param` of the current surface from `value` (already trimmed);
    /// when the value does not parse, fail with the input's attributes.
    Apply { param: OpenPbrParam, input: MtlxInput },
    /// Append the current surface and leave it.
    Close,
    /// Stop with this error.
    Fail(MtlxError),
}

/// A step, by its data.
pub enum StepView {
    Open,
    PushDefault,
    Apply(OpenPbrParam, Seq<char>, Seq<char>, Seq<char>),
    Close,
    FailXml(Seq<char>),
    FailInput(Seq<char>, Seq<char>, Seq<char>),
}

pub open spec fn step_view(s: MtlxStep) -> StepView {
    match s {
        MtlxStep::Open => StepView::Open,
        MtlxStep::PushDefault => StepView::PushDefault,
        MtlxStep::Apply { param, input } => StepView::Apply(param, input.name@, input.type_token@, input.value@),
        MtlxStep::Close => StepView::Close,
        MtlxStep::Fail(MtlxError::Xml(m)) => StepView::FailXml(m@),
        MtlxStep::Fail(MtlxError::Input { name, type_token, value }) => StepView::FailInput(name@, type_token@, value@),
    }
}

pub open spec fn opt_step_view(s: Option<MtlxStep>) -> Option<StepView> {
    match s {
        Some(s) => Some(step_view(s)),
        None => None,
    }
}

/// What an `<input>` inside a surface contributes: nothing for a
/// non-scalar type or an empty (connected or unset) value; otherwise the
/// parameter it names, or an input error when it names none.
pub open spec fn input_step(n: Seq<char>, t: Seq<char>, v: Seq<char>) -> Option<StepView> {
    let tv = trim_spec(v);
    if !is_scalar_type_spec(t) || tv.len() == 0 {
        None
    } else {
        match input_target_spec(n, t) {
            Some(p) => Some(StepView::Apply(p, n, t, tv)),
            None => Some(StepView::FailInput(n, t, tv)),
        }
    }
}

/// What a start or empty-element tag contributes inside or outside a surface.
pub open spec fn tag_step(tag: XmlTag, in_surface: bool, empty: bool) -> Option<StepView> {
    if tag.name@ == "open_pbr_surface"@ {
        Some(if empty { StepView::PushDefault } else { StepView::Open })
    } else if tag.name@ == "input"@ && in_surface {
        match input_of_spec(tag.attributes@) {
            Err(m) => Some(StepView::FailXml(m)),
            Ok((n, t, v)) => input_step(n, t, v),
        }
    } else {
        None
    }
}

/// The state after an event: whether a surface is in progress.
pub open spec fn next_in_surface(ev: Result<XmlEvent, String>, in_surface: bool) -> bool {
    match ev {
        Ok(XmlEvent::Start(tag)) => in_surface || tag.name@ == "open_pbr_surface"@,
        Ok(XmlEvent::End(name)) => in_surface && name@ != "open_pbr_surface"@,
        _ => in_surface,
    }
}

/// The step an event contributes, if any.
pub open spec fn event_step(ev: Result<XmlEvent, String>, in_surface: bool) -> Option<StepView> {
    match ev {
        Err(m) => Some(StepView::FailXml(m@)),
        Ok(XmlEvent::Start(tag)) => tag_step(tag, in_surface, false),
        Ok(XmlEvent::Empty(tag)) => tag_step(tag, in_surface, true),
        Ok(XmlEvent::End(name)) => if name@ == "open_pbr_surface"@ && in_surface { Some(StepView::Close) } else { None },
        Ok(XmlEvent::Eof) => None,
        Ok(XmlEvent::Other) => None,
    }
}

/// Whether an event or its step ends the reading.
pub open spec fn ends_reading(ev: Result<XmlEvent, String>, step: Option<StepView>) -> bool {
    ev is Err || ev == Ok::<XmlEvent, String>(XmlEvent::Eof) || (step matches Some(s) && (s is FailXml || s is FailInput))
}

/// The steps of a document read as `events`, with whether a surface is in
/// progress and whether the reading has ended, after the events.
pub open spec fn scan_spec(events: Seq<Result<XmlEvent, String>>) -> (Seq<StepView>, bool, bool)
    decreases events.len(),
{
    if events.len() == 0 {
        (Seq::empty(), false, false)
    } else {
        let (steps, in_surface, ended) = scan_spec(events.drop_last());
        if ended {
            (steps, in_surface, ended)
        } else {
            let ev = events.last();
            let step = event_step(ev, in_surface);
            let steps2 = match step { Some(s) => steps.push(s), None => steps };
            (steps2, next_in_surface(ev, in_surface), ends_reading(ev, step))
        }
    }
}

fn trimmed(s: &String) -> (r: String)
    ensures
        r@ == trim_spec(s@),
{
    let cs = chars_of(s.as_str());
    let t = trim_chars(cs.as_slice());
    string_of(t.as_slice())
}

fn tag_step_exec(tag: &XmlTag, in_surface: bool, empty: bool) -> (r: Option<MtlxStep>)
    ensures
        match r {
            Some(s) => tag_step(*tag, in_surface, empty) == Some(step_view(s)),
            None => tag_step(*tag, in_surface, empty) is None,
        },
{
    if str_eq(tag.name.as_str(), "open_pbr_surface") {
        return Some(if empty { MtlxStep::PushDefault } else { MtlxStep::Open });
    }
    if !(str_eq(tag.name.as_str(), "input") && in_surface) {
        return None;
    }
    match input_of(&tag.attributes) {
        Err(m) => Some(MtlxStep::Fail(MtlxError::Xml(m))),
        Ok(input) => {
            let value = trimmed(&input.value);
            if !is_scalar_type(input.type_token.as_str()) || value.as_str().unicode_len() == 0 {
                return None;
            }
            match openpbr_input_target(input.name.as_str(), input.type_token.as_str()) {
                Some(param) => Some(MtlxStep::Apply {
                    param,
                    input: MtlxInput { name: input.name, type_token: input.type_token, value },
                }),
                None => Some(MtlxStep::Fail(MtlxError::Input {
                    name: input.name,
                    type_token: input.type_token,
                    value,
                })),
            }
        },
    }
}

/// The steps that build a document's surfaces from its events, read until
/// the end of the document, a reader error, or the first failing input.
pub fn mtlx_steps(events: &Vec<Result<XmlEvent, String>>) -> (r: Vec<MtlxStep>)
    ensures
        r@.map_values(|s: MtlxStep| step_view(s)) == scan_spec(events@).0,
{
    let mut out: Vec<MtlxStep> = Vec::new();
    let mut in_surface = false;
    let mut i: usize = 0;
    while i < events.len()
        invariant
            i <= events@.len(),
            scan_spec(events@.take(i as int)) == (out@.map_values(|s: MtlxStep| step_view(s)), in_surface, false),
        decreases events.len() - i,
    {
        assert(events@.take(i + 1).drop_last() =~= events@.take(i as int));
        assert(events@.take(i + 1).last() == events@[i as int]);
        let ghost before = out@;
        let ev = &events[i];
        let (step, next, ends): (Option<MtlxStep>, bool, bool) = match ev {
            Err(m) => (Some(MtlxStep::Fail(MtlxError::Xml(copy_string(m)))), in_surface, true),
            Ok(XmlEvent::Start(tag)) => {
                let s = tag_step_exec(tag, in_surface, false);
                let fails = match &s { Some(MtlxStep::Fail(_)) => true, _ => false };
                (s, in_surface || str_eq(tag.name.as_str(), "open_pbr_surface"), fails)
            },
            Ok(XmlEvent::Empty(tag)) => {
                let s = tag_step_exec(tag, in_surface, true);
                let fails = match &s { Some(MtlxStep::Fail(_)) => true, _ => false };
                (s, in_surface, fails)
            },
            Ok(XmlEvent::End(name)) => {
                let closes = str_eq(name.as_str(), "open_pbr_surface");
                (if closes && in_surface { Some(MtlxStep::Close) } else { None }, in_surface && !closes, false)
            },
            Ok(XmlEvent::Eof) => (None, in_surface, true),
            Ok(XmlEvent::Other) => (None, in_surface, false),
        };
        proof {
            let sv = opt_step_view(step);
            assert(sv == event_step(events@[i as int], in_surface));
            assert(next == next_in_surface(events@[i as int], in_surface));
            assert(ends == ends_reading(events@[i as int], sv));
        }
        let ghost sv = opt_step_view(step);
        match step {
            Some(s) => {
                out.push(s);
                assert(out@.map_values(|s: MtlxStep| step_view(s)) =~= before.map_values(|s: MtlxStep| step_view(s)).push(step_view(s)));
            },
            None => {},
        }
        in_surface = next;
        if ends {
            proof {
                lemma_scan_ended(events@, i as int + 1);
            }
            return out;
        }
        i = i + 1;
    }
    assert(events@.take(events@.len() as int) =~= events@);
    out
}

proof fn lemma_scan_ended(events: Seq<Result<XmlEvent, String>>, k: int)
    requires
        0 <= k <= events.len(),
        scan_spec(events.take(k)).2,
    ensures
        scan_spec(events) == scan_spec(events.take(k)),
    decreases events.len() - k,
{
    if k < events.len() {
        assert(events.take(k + 1).drop_last() =~= events.take(k));
        lemma_scan_ended(events, k + 1);
    } else {
        assert(events.take(k) =~= events);
    }
}

/// The events of `xml`, read with text trimming on, through the end of
/// the document or the reader's first error (see [`xml_events`]).
pub fn mtlx_events(xml: &str) -> (r: Vec<Result<XmlEvent, String>>)
    ensures
        r@ == xml_events(xml@),
        r@.len() >= 1,
        is_stream_end(r@[r@.len() - 1]),
        forall|j: int| 0 <= j < r@.len() - 1 ==> !is_stream_end(#[trigger] r@[j]),
{
    read_xml_events(xml)
}

/// The steps that build the surfaces of `xml`: those of the events the
/// reader yields for it, in document order (see [`mtlx_steps`]).
pub fn mtlx_plan(xml: &str) -> (r: Vec<MtlxStep>)
    ensures
        r@.map_values(|s: MtlxStep| step_view(s)) == scan_spec(xml_events(xml@)).0,
{
    let events = mtlx_events(xml);
    mtlx_steps(&events)
}

/// Whether a step stops the reading with an error.
pub open spec fn is_failure(s: StepView) -> bool {
    s is FailXml || s is FailInput
}

/// The surface-building steps of any document keep their promises: a
/// failure, if there is one, is the last step; and every parameter that is
/// set is a scalar parameter named by its input with its own type token,
/// set from a non-empty value.
pub proof fn lemma_scan_steps_well_formed(events: Seq<Result<XmlEvent, String>>)
    ensures
        ({
            let (steps, in_surface, ended) = scan_spec(events);
            &&& forall|i: int| 0 <= i < steps.len() - 1 ==> !is_failure(#[trigger] steps[i])
            &&& !ended ==> forall|i: int| 0 <= i < steps.len() ==> !is_failure(#[trigger] steps[i])
            &&& forall|i: int| 0 <= i < steps.len() ==> (#[trigger] steps[i] matches StepView::Apply(p, n, t, v)
                ==> is_scalar_type_spec(t) && input_target_spec(n, t) == Some(p) && v.len() > 0)
        }),
    decreases events.len(),
{
    if events.len() > 0 {
        lemma_scan_steps_well_formed(events.drop_last());
        let (steps0, in0, ended0) = scan_spec(events.drop_last());
        if !ended0 {
            let ev = events.last();
            let step = event_step(ev, in0);
            match step {
                Some(s) => {
                    let steps = steps0.push(s);
                    assert(forall|i: int| 0 <= i < steps0.len() ==> steps[i] == steps0[i]);
                },
                None => {},
            }
        }
    }
}

} // verus!
