use vstd::prelude::*;
use crate::config::ParserConfig;
use crate::event::{models, EventModel, XmlEvent};
use crate::text::{trim, trim_xml};

verus! {

/// What a configuration makes of one raw event.
pub enum Role {
    /// The event is removed from the stream and takes no part in merging.
    Dropped,
    /// The event is about to be emitted as `Characters` with this text.
    Text(Seq<char>),
    /// The event is passed on as it is.
    Kept,
}

/// The role of `e` under `cfg`.
pub open spec fn role(cfg: ParserConfig, e: EventModel) -> Role {
    match e {
        EventModel::Comment(_) => if cfg.ignore_comments {
            Role::Dropped
        } else {
            Role::Kept
        },
        EventModel::CData(t) => if cfg.cdata_to_characters {
            Role::Text(t)
        } else {
            Role::Kept
        },
        EventModel::Whitespace(t) => if cfg.whitespace_to_characters {
            Role::Text(t)
        } else if cfg.trim_whitespace {
            Role::Dropped
        } else {
            Role::Kept
        },
        EventModel::Characters(t) => Role::Text(t),
        _ => Role::Kept,
    }
}

/// What is emitted for the text `t` of a run of text events (or of one text
/// event where merging is off): trimmed where trimming is on, and nothing at
/// all where no character is left.
pub open spec fn text_out(cfg: ParserConfig, t: Seq<char>) -> Seq<EventModel> {
    let u = if cfg.trim_whitespace {
        trim(t)
    } else {
        t
    };
    if u.len() == 0 {
        Seq::empty()
    } else {
        seq![EventModel::Characters(u)]
    }
}

/// One step of the normalizer: from the pending text and one raw event, the
/// new pending text and the events emitted.
pub open spec fn step(cfg: ParserConfig, pending: Seq<char>, e: EventModel) -> (
    Seq<char>,
    Seq<EventModel>,
) {
    match role(cfg, e) {
        Role::Dropped => (pending, Seq::empty()),
        Role::Text(t) => if cfg.merge_sequential_characters {
            (pending + t, Seq::empty())
        } else {
            (pending, text_out(cfg, t))
        },
        Role::Kept => (Seq::empty(), text_out(cfg, pending) + seq![e]),
    }
}

/// All that is emitted from the pending text `pending` on, for the rest of
/// the stream `s`, the final flush included.
pub open spec fn run(cfg: ParserConfig, pending: Seq<char>, s: Seq<EventModel>) -> Seq<
    EventModel,
>
    decreases s.len(),
{
    if s.len() == 0 {
        text_out(cfg, pending)
    } else {
        let (p, out) = step(cfg, pending, s[0]);
        out + run(cfg, p, s.drop_first())
    }
}

/// The normalized stream of the raw stream `s` under `cfg`.
pub open spec fn normalized(cfg: ParserConfig, s: Seq<EventModel>) -> Seq<EventModel> {
    run(cfg, Seq::empty(), s)
}

/// The events that an optional event stands for.
pub open spec fn option_models(o: Option<XmlEvent>) -> Seq<EventModel> {
    match o {
        Some(e) => seq![e@],
        None => Seq::empty(),
    }
}

/// The stateful normalizer: it is fed the raw events one at a time and holds
/// back the text of a run of `Characters` until the run ends.
pub struct Normalizer {
    config: ParserConfig,
    pending: String,
}

/// The `Characters` event for the text `t`, trimmed where `cfg` asks for it,
/// or none where no character is left.
fn text_event(cfg: ParserConfig, t: String) -> (r: Option<XmlEvent>)
    ensures
        option_models(r) == text_out(cfg, t@),
{
    let u = if cfg.trim_whitespace {
        trim_xml(t.as_str())
    } else {
        t
    };
    if u.as_str().is_empty() {
        None
    } else {
        Some(XmlEvent::Characters(u))
    }
}

impl Normalizer {
    /// The configuration this normalizer applies.
    pub closed spec fn spec_config(&self) -> ParserConfig {
        self.config
    }

    /// The text held back for merging.
    pub closed spec fn pending_text(&self) -> Seq<char> {
        self.pending@
    }

    /// A normalizer for `config`, with nothing held back.
    pub fn new(config: ParserConfig) -> (r: Normalizer)
        ensures
            r.spec_config() == config,
            r.pending_text() == Seq::<char>::empty(),
    {
        Normalizer { config, pending: String::new() }
    }

    /// Emits what is held back, if anything, and holds nothing after.
    fn take_pending(&mut self) -> (r: Option<XmlEvent>)
        ensures
            final(self).spec_config() == old(self).spec_config(),
            final(self).pending_text() == Seq::<char>::empty(),
            option_models(r) == text_out(old(self).spec_config(), old(self).pending_text()),
    {
        let mut p = String::new();
        std::mem::swap(&mut p, &mut self.pending);
        text_event(self.config, p)
    }

    /// Handles an event that is about to be emitted as `Characters` with
    /// the text `t`.
    fn text(&mut self, t: String) -> (out: Vec<XmlEvent>)
        ensures
            final(self).spec_config() == old(self).spec_config(),
            old(self).spec_config().merge_sequential_characters ==> final(self).pending_text()
                == old(self).pending_text() + t@ && out@.len() == 0,
            !old(self).spec_config().merge_sequential_characters ==> final(self).pending_text()
                == old(self).pending_text() && models(out@) == text_out(
                old(self).spec_config(),
                t@,
            ),
    {
        let mut out: Vec<XmlEvent> = Vec::new();
        if self.config.merge_sequential_characters {
            self.pending.append(t.as_str());
        } else {
            let r = text_event(self.config, t);
            let ghost emitted = option_models(r);
            match r {
                Some(e) => out.push(e),
                None => {},
            }
            assert(models(out@) =~= emitted);
        }
        out
    }

    /// Handles an event that is passed on: what is held back goes first.
    fn kept(&mut self, e: XmlEvent) -> (out: Vec<XmlEvent>)
        ensures
            final(self).spec_config() == old(self).spec_config(),
            final(self).pending_text() == Seq::<char>::empty(),
            models(out@) == text_out(old(self).spec_config(), old(self).pending_text()) + seq![
                e@,
            ],
    {
        let mut out: Vec<XmlEvent> = Vec::new();
        let r = self.take_pending();
        let ghost flushed = option_models(r);
        match r {
            Some(x) => out.push(x),
            None => {},
        }
        out.push(e);
        assert(models(out@) =~= flushed + seq![e@]);
        out
    }

    /// Feeds one raw event; returns the events that are ready to be emitted,
    /// in order (none, one or two).
    pub fn feed(&mut self, event: XmlEvent) -> (out: Vec<XmlEvent>)
        ensures
            final(self).spec_config() == old(self).spec_config(),
            (final(self).pending_text(), models(out@)) == step(
                old(self).spec_config(),
                old(self).pending_text(),
                event@,
            ),
    {
        let cfg = self.config;
        match event {
            XmlEvent::Characters(t) => self.text(t),
            XmlEvent::Whitespace(t) => {
                if cfg.whitespace_to_characters {
                    self.text(t)
                } else if cfg.trim_whitespace {
                    Vec::new()
                } else {
                    self.kept(XmlEvent::Whitespace(t))
                }
            },
            XmlEvent::CData(t) => {
                if cfg.cdata_to_characters {
                    self.text(t)
                } else {
                    self.kept(XmlEvent::CData(t))
                }
            },
            XmlEvent::Comment(t) => {
                if cfg.ignore_comments {
                    Vec::new()
                } else {
                    self.kept(XmlEvent::Comment(t))
                }
            },
            other => self.kept(other),
        }
    }

    /// Ends the stream: returns the text held back, if any is left to emit,
    /// and holds nothing after.
    pub fn finish(&mut self) -> (r: Option<XmlEvent>)
        ensures
            final(self).spec_config() == old(self).spec_config(),
            final(self).pending_text() == Seq::<char>::empty(),
            option_models(r) == text_out(old(self).spec_config(), old(self).pending_text()),
    {
        self.take_pending()
    }

    /// Takes one item from the tokenizer: an event, the end of the stream
    /// (`None`) or an upstream error. An error is handed back at once and
    /// leaves the normalizer as it was; otherwise the result is what `feed` or
    /// `finish` emits.
    pub fn accept<E>(&mut self, raw: Result<Option<XmlEvent>, E>) -> (r: Result<Vec<XmlEvent>, E>)
        ensures
            final(self).spec_config() == old(self).spec_config(),
            match raw {
                Err(x) => r == Err::<Vec<XmlEvent>, E>(x) && final(self).pending_text()
                    == old(self).pending_text(),
                Ok(Some(e)) => r is Ok && (final(self).pending_text(), models(r->Ok_0@)) == step(
                    old(self).spec_config(),
                    old(self).pending_text(),
                    e@,
                ),
                Ok(None) => r is Ok && final(self).pending_text() == Seq::<char>::empty()
                    && models(r->Ok_0@) == text_out(
                    old(self).spec_config(),
                    old(self).pending_text(),
                ),
            },
    {
        match raw {
            Err(x) => Err(x),
            Ok(Some(e)) => Ok(self.feed(e)),
            Ok(None) => {
                let mut out: Vec<XmlEvent> = Vec::new();
                let last = self.finish();
                let ghost flushed = option_models(last);
                match last {
                    Some(e) => out.push(e),
                    None => {},
                }
                assert(models(out@) =~= flushed);
                Ok(out)
            },
        }
    }
}

/// Normalizes the whole raw stream `events` under `config`.
pub fn normalize_events(config: ParserConfig, events: Vec<XmlEvent>) -> (r: Vec<XmlEvent>)
    ensures
        models(r@) == normalized(config, models(events@)),
{
    let ghost s = models(events@);
    let mut n = Normalizer::new(config);
    let mut out: Vec<XmlEvent> = Vec::new();
    assert(s.skip(0) =~= s);
    assert(models(out@) =~= Seq::<EventModel>::empty());
    for ev in it: events
        invariant
            it.seq() == events@,
            s == models(events@),
            n.spec_config() == config,
            models(out@) + run(config, n.pending_text(), s.skip(it.index() as int)) == normalized(
                config,
                s,
            ),
    {
        let ghost i = it.index() as int;
        let ghost before = n.pending_text();
        let ghost out0 = models(out@);
        assert(s.skip(i).drop_first() =~= s.skip(i + 1));
        assert(s.skip(i)[0] == ev@);
        let mut more = n.feed(ev);
        let ghost added = models(more@);
        out.append(&mut more);
        assert(models(out@) =~= out0 + added);
        assert(out0 + (added + run(config, n.pending_text(), s.skip(i + 1))) =~= models(out@)
            + run(config, n.pending_text(), s.skip(i + 1)));
    }
    let ghost out0 = models(out@);
    let last = n.finish();
    match last {
        Some(e) => out.push(e),
        None => {},
    }
    assert(s.skip(s.len() as int) =~= Seq::<EventModel>::empty());
    assert(models(out@) =~= out0 + option_models(last));
    out
}

} // verus!
