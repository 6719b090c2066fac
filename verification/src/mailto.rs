//! `mailto:` links: what a message that is opened from one starts with.
use vstd::prelude::*;

use crate::model;
use crate::text;
use crate::text::{eq_ignore_ascii_case, str_eq, to_ascii_lower};
use crate::urls;
use crate::urls::{UrlParts, percent_decode, split_url};

verus! {

/// The event that carries a link's fields to the user interface.
pub const MAILTO_EVENT: &'static str = "mailto_open";

/// The fields of a `mailto:` link.
#[derive(Debug, PartialEq, Eq)]
pub struct MailtoPayload {
    pub to: Option<String>,
    pub cc: Option<String>,
    pub bcc: Option<String>,
    pub subject: Option<String>,
    pub body: Option<String>,
    pub in_reply_to: Option<String>,
}

/// The contents of a [`MailtoPayload`].
pub struct MailtoModel {
    pub to: Option<Seq<char>>,
    pub cc: Option<Seq<char>>,
    pub bcc: Option<Seq<char>>,
    pub subject: Option<Seq<char>>,
    pub body: Option<Seq<char>>,
    pub in_reply_to: Option<Seq<char>>,
}

impl View for MailtoPayload {
    type V = MailtoModel;

    open spec fn view(&self) -> MailtoModel {
        MailtoModel {
            to: model::opt_text(self.to),
            cc: model::opt_text(self.cc),
            bcc: model::opt_text(self.bcc),
            subject: model::opt_text(self.subject),
            body: model::opt_text(self.body),
            in_reply_to: model::opt_text(self.in_reply_to),
        }
    }
}

impl Default for MailtoPayload {
    fn default() -> (r: Self)
        ensures
            r@ == mailto_start(Seq::empty()),
    {
        MailtoPayload {
            to: None,
            cc: None,
            bcc: None,
            subject: None,
            body: None,
            in_reply_to: None,
        }
    }
}

/// An address list with one more value at its end.
pub open spec fn with_addr(target: Option<Seq<char>>, value: Seq<char>) -> Option<Seq<char>> {
    match target {
        Some(t) => Some(t + ", "@ + value),
        None => Some(value),
    }
}

/// Adds a value to an address list.
pub fn append_addr(target: &mut Option<String>, value: &str)
    ensures
        model::opt_text(*final(target)) == with_addr(model::opt_text(*old(target)), value@),
{
    match target {
        Some(existing) => {
            existing.append(", ");
            existing.append(value);
        },
        None => {
            *target = Some(value.to_owned());
        },
    }
}

/// The fields that the path alone gives: the recipients that it names, without
/// their percent-encoding.
pub open spec fn mailto_start(path: Seq<char>) -> MailtoModel {
    MailtoModel {
        to: if path.len() == 0 {
            None
        } else {
            Some(urls::percent_decoded(path))
        },
        cc: None,
        bcc: None,
        subject: None,
        body: None,
        in_reply_to: None,
    }
}

/// The fields with one parameter more. Addresses are gathered; of the other
/// fields the last one counts; unknown parameters are ignored.
pub open spec fn with_param(m: MailtoModel, key: Seq<char>, value: Seq<char>) -> MailtoModel {
    let k = text::ascii_lowered(key);
    if k == "to"@ {
        MailtoModel { to: with_addr(m.to, value), ..m }
    } else if k == "cc"@ {
        MailtoModel { cc: with_addr(m.cc, value), ..m }
    } else if k == "bcc"@ {
        MailtoModel { bcc: with_addr(m.bcc, value), ..m }
    } else if k == "subject"@ {
        MailtoModel { subject: Some(value), ..m }
    } else if k == "body"@ {
        MailtoModel { body: Some(value), ..m }
    } else if k == "in-reply-to"@ {
        MailtoModel { in_reply_to: Some(value), ..m }
    } else {
        m
    }
}

/// The fields of a link with this path and these parameters.
pub open spec fn mailto_fields(path: Seq<char>, pairs: Seq<(Seq<char>, Seq<char>)>) -> MailtoModel
    decreases pairs.len(),
{
    if pairs.len() == 0 {
        mailto_start(path)
    } else {
        with_param(mailto_fields(path, pairs.drop_last()), pairs.last().0, pairs.last().1)
    }
}

/// Does the link say anything about the message? What it answers is not
/// enough.
pub open spec fn says_something(m: MailtoModel) -> bool {
    m.to is Some || m.cc is Some || m.bcc is Some || m.subject is Some || m.body is Some
}

/// The fields of a link that was taken apart, or why it is none.
pub open spec fn mailto_of(
    parts: Result<(Seq<char>, Seq<char>, Seq<(Seq<char>, Seq<char>)>), Seq<char>>,
) -> Result<MailtoModel, Seq<char>> {
    match parts {
        Err(e) => Err("not a URL: "@ + e),
        Ok((scheme, path, pairs)) => if text::ascii_lowered(scheme) != text::ascii_lowered("mailto"@) {
            Err("expected mailto: scheme, got "@ + scheme)
        } else if !says_something(mailto_fields(path, pairs)) {
            Err("mailto URL had no recognized fields"@)
        } else {
            Ok(mailto_fields(path, pairs))
        },
    }
}

/// The fields of a link with the given parts.
pub fn mailto_payload(parts: &UrlParts) -> (r: Result<MailtoPayload, String>)
    ensures
        match r {
            Ok(p) => mailto_of(Ok((parts.scheme@, parts.path@, urls::pairs_of(parts.pairs@)))) == Ok::<
                MailtoModel,
                Seq<char>,
            >(p@),
            Err(e) => mailto_of(Ok((parts.scheme@, parts.path@, urls::pairs_of(parts.pairs@)))) == Err::<
                MailtoModel,
                Seq<char>,
            >(e@),
        },
{
    if !eq_ignore_ascii_case(parts.scheme.as_str(), "mailto") {
        let mut e = "expected mailto: scheme, got ".to_owned();
        e.append(parts.scheme.as_str());
        return Err(e);
    }
    let ghost pairs = urls::pairs_of(parts.pairs@);
    let mut p = MailtoPayload::default();
    if !parts.path.as_str().is_empty() {
        p.to = Some(percent_decode(parts.path.as_str()));
    }
    let mut i: usize = 0;
    while i < parts.pairs.len()
        invariant
            i <= parts.pairs@.len(),
            pairs == urls::pairs_of(parts.pairs@),
            p@ == mailto_fields(parts.path@, pairs.take(i as int)),
        decreases parts.pairs@.len() - i,
    {
        assert(pairs.take(i + 1).drop_last() =~= pairs.take(i as int));
        let key = to_ascii_lower(parts.pairs[i].0.as_str());
        let value = parts.pairs[i].1.clone();
        assert(pairs.take(i + 1).last() == (parts.pairs@[i as int].0@, value@));
        if str_eq(key.as_str(), "to") {
            append_addr(&mut p.to, value.as_str());
        } else if str_eq(key.as_str(), "cc") {
            append_addr(&mut p.cc, value.as_str());
        } else if str_eq(key.as_str(), "bcc") {
            append_addr(&mut p.bcc, value.as_str());
        } else if str_eq(key.as_str(), "subject") {
            p.subject = Some(value);
        } else if str_eq(key.as_str(), "body") {
            p.body = Some(value);
        } else if str_eq(key.as_str(), "in-reply-to") {
            p.in_reply_to = Some(value);
        }
        i = i + 1;
    }
    assert(pairs.take(pairs.len() as int) =~= pairs);
    if p.to.is_none() && p.cc.is_none() && p.bcc.is_none() && p.subject.is_none()
        && p.body.is_none() {
        return Err("mailto URL had no recognized fields".to_owned());
    }
    Ok(p)
}

/// The fields of a `mailto:` link. The path is the first list of recipients;
/// `to`, `cc`, `bcc`, `subject`, `body` and `in-reply-to` supply the rest.
pub fn parse_mailto(input: &str) -> (r: Result<MailtoPayload, String>)
    ensures
        match r {
            Ok(p) => mailto_of(urls::url_parts(input@)) == Ok::<MailtoModel, Seq<char>>(p@),
            Err(e) => mailto_of(urls::url_parts(input@)) == Err::<MailtoModel, Seq<char>>(e@),
        },
{
    match split_url(input) {
        Ok(parts) => mailto_payload(&parts),
        Err(e) => {
            let mut m = "not a URL: ".to_owned();
            m.append(e.as_str());
            Err(m)
        },
    }
}

/// Is this a link that the program answers?
pub fn is_mailto(scheme: &str) -> (r: bool)
    ensures
        r == (text::ascii_lowered(scheme@) == text::ascii_lowered("mailto"@)),
{
    eq_ignore_ascii_case(scheme, "mailto")
}

/// Parameters never take a recipient away: the path's recipients stay at the
/// head of the list.
pub proof fn law_path_recipients_come_first(path: Seq<char>, pairs: Seq<(Seq<char>, Seq<char>)>)
    requires
        path.len() > 0,
    ensures
        mailto_fields(path, pairs).to is Some,
        urls::percent_decoded(path).is_prefix_of(mailto_fields(path, pairs).to->0),
    decreases pairs.len(),
{
    if pairs.len() > 0 {
        law_path_recipients_come_first(path, pairs.drop_last());
        let before = mailto_fields(path, pairs.drop_last()).to->0;
        let after = mailto_fields(path, pairs).to->0;
        assert(before.is_prefix_of(after)) by {
            if after != before {
                assert(after =~= before + ", "@ + pairs.last().1);
                assert(before =~= after.take(before.len() as int));
            }
        }
    }
}

/// A link opens a message whenever it says anything of one: its path names a
/// recipient, or a parameter is, in any case, `to`, `cc`, `bcc`, `subject` or
/// `body`. Any one of them is enough, and no other parameter is. Anything but a
/// `mailto:` link opens none.
pub proof fn law_a_link_that_says_anything_opens_a_message(
    scheme: Seq<char>,
    path: Seq<char>,
    pairs: Seq<(Seq<char>, Seq<char>)>,
)
    ensures
        mailto_of(Ok((scheme, path, pairs))) is Ok <==> {
            &&& text::ascii_lowered(scheme) == text::ascii_lowered("mailto"@)
            &&& path.len() > 0 || exists|i: int|
                0 <= i < pairs.len() && {
                    let key = text::ascii_lowered((#[trigger] pairs[i]).0);
                    key == "to"@ || key == "cc"@ || key == "bcc"@ || key == "subject"@ || key
                        == "body"@
                }
        },
{
    lemma_keys_differ();
    lemma_fields_said(path, pairs);
}

/// The names of the parameters are different.
proof fn lemma_keys_differ()
    ensures
        "to"@ != "cc"@,
        "to"@ != "bcc"@,
        "to"@ != "subject"@,
        "to"@ != "body"@,
        "to"@ != "in-reply-to"@,
        "cc"@ != "bcc"@,
        "cc"@ != "subject"@,
        "cc"@ != "body"@,
        "cc"@ != "in-reply-to"@,
        "bcc"@ != "subject"@,
        "bcc"@ != "body"@,
        "bcc"@ != "in-reply-to"@,
        "subject"@ != "body"@,
        "subject"@ != "in-reply-to"@,
        "body"@ != "in-reply-to"@,
{
    reveal_strlit("to");
    reveal_strlit("cc");
    reveal_strlit("bcc");
    reveal_strlit("subject");
    reveal_strlit("body");
    reveal_strlit("in-reply-to");
    assert("to"@[0] == 't' && "cc"@[0] == 'c');
    assert("bcc"@.len() == 3);
    assert("subject"@.len() == 7);
    assert("body"@.len() == 4);
}

/// Which fields a link fills.
proof fn lemma_fields_said(path: Seq<char>, pairs: Seq<(Seq<char>, Seq<char>)>)
    ensures
        says_something(mailto_fields(path, pairs)) <==> path.len() > 0 || exists|i: int|
            0 <= i < pairs.len() && {
                let key = text::ascii_lowered((#[trigger] pairs[i]).0);
                key == "to"@ || key == "cc"@ || key == "bcc"@ || key == "subject"@ || key
                    == "body"@
            },
    decreases pairs.len(),
{
    if pairs.len() > 0 {
        let init = pairs.drop_last();
        lemma_keys_differ();
        lemma_fields_said(path, init);
        let said = |p: (Seq<char>, Seq<char>)|
            {
                let key = text::ascii_lowered(p.0);
                key == "to"@ || key == "cc"@ || key == "bcc"@ || key == "subject"@ || key
                    == "body"@
            };
        if says_something(mailto_fields(path, init)) && path.len() == 0 {
            let i = choose|i: int| 0 <= i < init.len() && said(#[trigger] init[i]);
            assert(pairs[i] == init[i]);
            assert(said(pairs[i]));
        }
        if said(pairs.last()) {
            assert(said(pairs[pairs.len() - 1]));
        }
        if exists|i: int| 0 <= i < pairs.len() && said(#[trigger] pairs[i]) {
            let i = choose|i: int| 0 <= i < pairs.len() && said(#[trigger] pairs[i]);
            if i < init.len() {
                assert(init[i] == pairs[i]);
                assert(said(init[i]));
            }
        }
    }
}

/// The place of the last parameter with the name, in any case.
pub open spec fn is_last_named(
    pairs: Seq<(Seq<char>, Seq<char>)>,
    name: Seq<char>,
    i: int,
) -> bool {
    &&& 0 <= i < pairs.len()
    &&& text::ascii_lowered(pairs[i].0) == name
    &&& forall|j: int| i < j < pairs.len() ==> text::ascii_lowered((#[trigger] pairs[j]).0) != name
}

/// Of the subjects that a link gives the last one counts, and likewise of the
/// bodies and of the messages that it answers; what it does not give is empty.
pub proof fn law_the_last_value_counts(path: Seq<char>, pairs: Seq<(Seq<char>, Seq<char>)>)
    ensures
        forall|i: int|
            #[trigger] is_last_named(pairs, "subject"@, i) ==> mailto_fields(path, pairs).subject
                == Some(pairs[i].1),
        forall|i: int|
            #[trigger] is_last_named(pairs, "body"@, i) ==> mailto_fields(path, pairs).body == Some(
                pairs[i].1,
            ),
        forall|i: int|
            #[trigger] is_last_named(pairs, "in-reply-to"@, i) ==> mailto_fields(
                path,
                pairs,
            ).in_reply_to == Some(pairs[i].1),
        (forall|i: int|
            0 <= i < pairs.len() ==> text::ascii_lowered((#[trigger] pairs[i]).0) != "subject"@)
            ==> mailto_fields(path, pairs).subject is None,
        (forall|i: int|
            0 <= i < pairs.len() ==> text::ascii_lowered((#[trigger] pairs[i]).0) != "body"@)
            ==> mailto_fields(path, pairs).body is None,
        (forall|i: int|
            0 <= i < pairs.len() ==> text::ascii_lowered((#[trigger] pairs[i]).0)
                != "in-reply-to"@) ==> mailto_fields(path, pairs).in_reply_to is None,
    decreases pairs.len(),
{
    lemma_keys_differ();
    if pairs.len() > 0 {
        let init = pairs.drop_last();
        law_the_last_value_counts(path, init);
        assert forall|name: Seq<char>, i: int|
            i < init.len() && #[trigger] is_last_named(pairs, name, i) implies is_last_named(
            init,
            name,
            i,
        ) && text::ascii_lowered(pairs.last().0) != name by {
            assert(pairs[pairs.len() - 1] == pairs.last());
            assert(init[i] == pairs[i]);
            assert forall|j: int| i < j < init.len() implies text::ascii_lowered(
                (#[trigger] init[j]).0,
            ) != name by {
                assert(init[j] == pairs[j]);
            }
        }
        assert(forall|j: int| 0 <= j < init.len() ==> #[trigger] init[j] == pairs[j]);
        assert(pairs[pairs.len() - 1] == pairs.last());
    }
}

/// The values of the parameters with the name, in any case, in order.
pub open spec fn values_named(pairs: Seq<(Seq<char>, Seq<char>)>, name: Seq<char>) -> Seq<
    Seq<char>,
> {
    pairs.filter(|p: (Seq<char>, Seq<char>)| text::ascii_lowered(p.0) == name).map_values(
        |p: (Seq<char>, Seq<char>)| p.1,
    )
}

/// All addresses of a link are gathered, in order and with commas between them:
/// the recipients of the path and of each `to`, and those of each `cc` and each
/// `bcc`.
pub proof fn law_all_addresses_are_gathered(path: Seq<char>, pairs: Seq<(Seq<char>, Seq<char>)>)
    ensures
        ({
            let fields = mailto_fields(path, pairs);
            let first = if path.len() == 0 {
                Seq::<Seq<char>>::empty()
            } else {
                seq![urls::percent_decoded(path)]
            };
            let to = first + values_named(pairs, "to"@);
            let cc = values_named(pairs, "cc"@);
            let bcc = values_named(pairs, "bcc"@);
            &&& fields.to is Some <==> to.len() > 0
            &&& fields.cc is Some <==> cc.len() > 0
            &&& fields.bcc is Some <==> bcc.len() > 0
            &&& to.len() > 0 ==> fields.to->0 == text::joined(to, ", "@)
            &&& cc.len() > 0 ==> fields.cc->0 == text::joined(cc, ", "@)
            &&& bcc.len() > 0 ==> fields.bcc->0 == text::joined(bcc, ", "@)
        }),
    decreases pairs.len(),
{
    reveal(Seq::filter);
    lemma_keys_differ();
    let first = if path.len() == 0 {
        Seq::<Seq<char>>::empty()
    } else {
        seq![urls::percent_decoded(path)]
    };
    if pairs.len() > 0 {
        let init = pairs.drop_last();
        let value = pairs.last().1;
        law_all_addresses_are_gathered(path, init);
        assert forall|name: Seq<char>| #[trigger] values_named(pairs, name) == if text::ascii_lowered(
            pairs.last().0,
        ) == name {
            values_named(init, name).push(value)
        } else {
            values_named(init, name)
        } by {
            assert(values_named(pairs, name) =~= if text::ascii_lowered(pairs.last().0) == name {
                values_named(init, name).push(value)
            } else {
                values_named(init, name)
            });
        }
        assert forall|list: Seq<Seq<char>>| #[trigger] list.push(value).drop_last() == list by {
            assert(list.push(value).drop_last() =~= list);
        }
        assert((first + values_named(init, "to"@)).push(value) =~= first + values_named(
            init,
            "to"@,
        ).push(value));
    } else {
        assert(first + values_named(pairs, "to"@) =~= first);
        assert(first.len() > 0 ==> first.drop_last() =~= Seq::<Seq<char>>::empty());
    }
}

/// A mail link is announced by the event that windows wait for.
pub proof fn law_mail_links_have_their_event()
    ensures
        MAILTO_EVENT@ == "mailto_open"@,
{
}

/// A link that opens a message opens it with what the link names; one that is
/// refused is told why.
pub proof fn law_refused_links_are_told_why(
    scheme: Seq<char>,
    path: Seq<char>,
    pairs: Seq<(Seq<char>, Seq<char>)>,
    reason: Seq<char>,
)
    ensures
        mailto_of(Ok((scheme, path, pairs))) is Ok ==> mailto_of(Ok((scheme, path, pairs)))->Ok_0
            == mailto_fields(path, pairs),
        text::ascii_lowered(scheme) != text::ascii_lowered("mailto"@) ==> mailto_of(
            Ok((scheme, path, pairs)),
        ) == Err::<MailtoModel, Seq<char>>("expected mailto: scheme, got "@ + scheme),
        text::ascii_lowered(scheme) == text::ascii_lowered("mailto"@) && path.len() == 0
            && pairs.len() == 0 ==> mailto_of(Ok((scheme, path, pairs))) == Err::<
            MailtoModel,
            Seq<char>,
        >("mailto URL had no recognized fields"@),
        mailto_of(Err(reason)) == Err::<MailtoModel, Seq<char>>("not a URL: "@ + reason),
{
}

} // verus!
