use vstd::prelude::*;
use crate::facts::{FactValue, Number};
use crate::template::{template_safe, template_is_safe};

verus! {

/// The texts that every event carries.
#[derive(Debug, Clone)]
pub struct EventParams {
    pub ty: String,
    pub title: String,
    pub message: String,
}

/// A notification that a satisfied rule fires.
#[derive(Debug, Clone)]
pub enum Event {
    /// A message with no delivery of its own.
    Message(EventParams),
    /// A message posted to a callback URL, with extra data (JSON text) for the
    /// receiver.
    PostToCallbackUrl { callback_url: String, params: EventParams, app_data: String },
    /// A message sent by email.
    EmailNotification { from: String, to: Vec<String>, params: EventParams },
}

/// An event with its coalescence settings: events that share a group fire at
/// most once within `coalescence` seconds.
#[derive(Debug, Clone)]
pub struct CoalescenceEvent {
    pub coalescence: Option<u64>,
    pub coalescence_group: Option<String>,
    pub event: Event,
}

/// The texts of an optional text.
pub open spec fn opt_view(s: Option<String>) -> Option<Seq<char>> {
    match s {
        Some(t) => Some(t@),
        None => None,
    }
}

/// The parameters of an event.
pub open spec fn params_of(e: Event) -> EventParams {
    match e {
        Event::Message(p) => p,
        Event::PostToCallbackUrl { params, .. } => params,
        Event::EmailNotification { params, .. } => params,
    }
}

/// The event's message template.
pub open spec fn message_of(e: CoalescenceEvent) -> Seq<char> {
    params_of(e.event).message@
}

/// Two lists of texts that read the same.
pub open spec fn same_texts(a: Seq<String>, b: Seq<String>) -> bool {
    a.len() == b.len() && forall|i: int| 0 <= i < a.len() ==> (#[trigger] a[i])@ == b[i]@
}

/// `a` is `b` but for its templated texts: the message, the callback URL and
/// the group name. The rest reads the same, and a group is there in one when
/// it is there in the other.
pub open spec fn same_but_texts(a: CoalescenceEvent, b: CoalescenceEvent) -> bool {
    &&& a.coalescence == b.coalescence
    &&& (a.coalescence_group is Some) == (b.coalescence_group is Some)
    &&& params_of(a.event).ty@ == params_of(b.event).ty@
    &&& params_of(a.event).title@ == params_of(b.event).title@
    &&& match (a.event, b.event) {
        (Event::Message(_), Event::Message(_)) => true,
        (
            Event::PostToCallbackUrl { app_data: d, .. },
            Event::PostToCallbackUrl { app_data: d2, .. },
        ) => d@ == d2@,
        (
            Event::EmailNotification { from: f, to: t, .. },
            Event::EmailNotification { from: f2, to: t2, .. },
        ) => f@ == f2@ && same_texts(t@, t2@),
        _ => false,
    }
}

/// The rendering where there is one, the template otherwise.
pub open spec fn or_template(rendered: Option<Seq<char>>, template: Seq<char>) -> Seq<char> {
    match rendered {
        Some(s) => s,
        None => template,
    }
}

/// `a` is `b` with each templated text replaced by its rendering where one was
/// made, and kept verbatim where rendering failed.
pub open spec fn texts_settled(
    a: CoalescenceEvent,
    b: CoalescenceEvent,
    message: Option<Seq<char>>,
    callback: Option<Seq<char>>,
    group: Option<Seq<char>>,
) -> bool {
    &&& same_but_texts(a, b)
    &&& message_of(a) == or_template(message, message_of(b))
    &&& match (a.event, b.event) {
        (
            Event::PostToCallbackUrl { callback_url: u, .. },
            Event::PostToCallbackUrl { callback_url: u2, .. },
        ) => u@ == or_template(callback, u2@),
        _ => true,
    }
    &&& match (a.coalescence_group, b.coalescence_group) {
        (Some(g), Some(g2)) => g@ == or_template(group, g2@),
        _ => true,
    }
}

/// What the template renders to against the facts: the renderer's result for
/// a template of simple tags only, and no rendering (so the text is kept
/// verbatim) for any other template.
pub open spec fn render_spec(template: Seq<char>, facts: FactValue) -> Option<Seq<char>> {
    if template_safe(template, facts) {
        rendering(template, facts)
    } else {
        None
    }
}

/// The callback URL template of an event that has one.
pub open spec fn callback_template(e: Event) -> Seq<char> {
    match e {
        Event::PostToCallbackUrl { callback_url, .. } => callback_url@,
        _ => Seq::empty(),
    }
}

/// The group name template of an event that has one.
pub open spec fn group_template(e: CoalescenceEvent) -> Seq<char> {
    match e.coalescence_group {
        Some(g) => g@,
        None => Seq::empty(),
    }
}

/// `a` is `b` with its message, callback URL and group name each replaced by
/// its rendering against the facts, or kept verbatim where there is none.
pub open spec fn rendered_as(a: CoalescenceEvent, b: CoalescenceEvent, facts: FactValue) -> bool {
    texts_settled(
        a,
        b,
        render_spec(message_of(b), facts),
        render_spec(callback_template(b.event), facts),
        render_spec(group_template(b), facts),
    )
}

/// The rendering where there is one, the template otherwise.
pub fn rendered_or(template: &String, rendered: Option<String>) -> (r: String)
    ensures
        r@ == or_template(opt_view(rendered), template@),
{
    match rendered {
        Some(s) => s,
        None => template.clone(),
    }
}

fn copy_params(p: &EventParams, message: String) -> (r: EventParams)
    ensures
        r.ty@ == p.ty@,
        r.title@ == p.title@,
        r.message@ == message@,
{
    EventParams { ty: p.ty.clone(), title: p.title.clone(), message }
}

fn copy_texts(v: &Vec<String>) -> (r: Vec<String>)
    ensures
        same_texts(r@, v@),
{
    let mut r: Vec<String> = Vec::new();
    let mut i: usize = 0;
    while i < v.len()
        invariant
            i <= v.len(),
            r@.len() == i,
            forall|k: int| 0 <= k < i ==> (#[trigger] r@[k])@ == v@[k]@,
        decreases v.len() - i,
    {
        r.push(v[i].clone());
        i = i + 1;
    }
    r
}

impl CoalescenceEvent {
    /// This event with its templated texts replaced by the renderings given,
    /// each kept verbatim where its rendering is `None`.
    pub fn with_texts(
        &self,
        message: Option<String>,
        callback: Option<String>,
        group: Option<String>,
    ) -> (r: CoalescenceEvent)
        ensures
            texts_settled(r, *self, opt_view(message), opt_view(callback), opt_view(group)),
    {
        let coalescence_group = match &self.coalescence_group {
            Some(g) => Some(rendered_or(g, group)),
            None => None,
        };
        let event = match &self.event {
            Event::Message(p) => Event::Message(copy_params(p, rendered_or(&p.message, message))),
            Event::PostToCallbackUrl { callback_url, params, app_data } => Event::PostToCallbackUrl {
                callback_url: rendered_or(callback_url, callback),
                params: copy_params(params, rendered_or(&params.message, message)),
                app_data: app_data.clone(),
            },
            Event::EmailNotification { from, to, params } => Event::EmailNotification {
                from: from.clone(),
                to: copy_texts(to),
                params: copy_params(params, rendered_or(&params.message, message)),
            },
        };
        CoalescenceEvent { coalescence: self.coalescence, coalescence_group, event }
    }

    /// Renders the event's templated texts against the facts; a text that
    /// has no rendering is kept verbatim.
    pub fn render(&self, facts: &FactValue) -> (r: CoalescenceEvent)
        ensures
            rendered_as(r, *self, *facts),
    {
        let message = match &self.event {
            Event::Message(p) => render_text(&p.message, facts),
            Event::PostToCallbackUrl { params, .. } => render_text(&params.message, facts),
            Event::EmailNotification { params, .. } => render_text(&params.message, facts),
        };
        let callback = match &self.event {
            Event::PostToCallbackUrl { callback_url, .. } => render_text(callback_url, facts),
            _ => None,
        };
        let group = match &self.coalescence_group {
            Some(g) => render_text(g, facts),
            None => None,
        };
        let r = self.with_texts(message, callback, group);
        assert(texts_settled(r, *self, opt_view(message), opt_view(callback), opt_view(group)));
        assert(opt_view(message) == render_spec(message_of(*self), *facts));
        r
    }
}

/// Renders a template against the facts where it uses only simple tags, and
/// gives `None` for any other template.
pub fn render_text(template: &String, facts: &FactValue) -> (r: Option<String>)
    ensures
        opt_view(r) == render_spec(template@, *facts),
{
    if template_is_safe(template.as_str(), facts) {
        render_str(template, facts)
    } else {
        None
    }
}

/// What mustache renders the template to against the facts, when it renders.
pub uninterp spec fn rendering(template: Seq<char>, facts: FactValue) -> Option<Seq<char>>;

#[verifier::external_type_specification]
#[verifier::external_body]
pub struct ExData(mustache::Data);

/// Relies on `mustache::compile_str` and `Template::render_data_to_string`:
/// the template filled in from the facts, or `None` where either fails. A
/// template of simple tags names no partial, so nothing is read from disk and
/// the result depends on the template and the facts alone; and none of its
/// tags shows a boolean, list or map, on which mustache's rendering panics.
#[verifier::external_body]
fn render_str(template: &String, facts: &FactValue) -> (r: Option<String>)
    requires
        template_safe(template@, *facts),
    ensures
        opt_view(r) == rendering(template@, *facts),
{
    match mustache::compile_str(template) {
        Ok(t) => t.render_data_to_string(&template_data(facts)).ok(),
        Err(_) => None,
    }
}

/// The facts as mustache data, value for value: numbers as their decimal
/// text, objects as maps.
#[verifier::external_body]
fn template_data(v: &FactValue) -> (r: mustache::Data) {
    match v {
        FactValue::Null => mustache::Data::Null,
        FactValue::Bool(b) => mustache::Data::Bool(*b),
        FactValue::Number(Number::Int(n)) => mustache::Data::String(n.to_string()),
        FactValue::Number(Number::Text(t)) => mustache::Data::String(t.clone()),
        FactValue::String(s) => mustache::Data::String(s.clone()),
        FactValue::Array(a) => mustache::Data::Vec(a.iter().map(template_data).collect()),
        FactValue::Object(m) => mustache::Data::Map(
            m.iter().map(|(k, x)| (k.clone(), template_data(x))).collect(),
        ),
    }
}

} // verus!
