//! Text extraction from Feishu interactive (card) messages.
//!
//! A card's `elements` is a list of rows, each row a list of elements (a flat
//! list of elements is accepted too); each element is told apart by its `tag`.
//! The JSON is read into these types by the caller; this module walks them.

use vstd::prelude::*;

use crate::text::concat_str;
use crate::text::join_strings;
use crate::text::str_is_empty;
use crate::text::join_spec;
use crate::text::views;

verus! {

/// The top of an interactive card.
pub struct InteractiveContent {
    pub title: Option<TitleValue>,
    pub elements: Option<Vec<ElementRow>>,
    pub card: Option<Box<InteractiveContent>>,
    pub header: Option<Header>,
}

/// A `title`: a plain string or a `{content, text}` object.
pub enum TitleValue {
    Text(String),
    Rich(RichText),
}

/// A rich text object: `content` is preferred, then `text`.
pub struct RichText {
    pub content: Option<String>,
    pub text: Option<String>,
}

/// One entry of `elements`: a row of elements, or a single element.
pub enum ElementRow {
    Array(Vec<CardElement>),
    Single(Box<CardElement>),
}

/// The card header.
pub struct Header {
    pub title: Option<RichText>,
}

/// One card element, by its `tag`.
#[allow(inconsistent_fields)]
pub enum CardElement {
    Markdown { content: Option<String> },
    LarkMd { content: Option<String> },
    PlainText { content: Option<String> },
    Div { text: Option<TextValue>, fields: Option<Vec<Field>> },
    A { href: Option<String>, text: Option<String> },
    Button { text: Option<RichText>, url: Option<String>, multi_url: Option<MultiUrl> },
    Img { alt: Option<RichText> },
    Note { elements: Option<Vec<CardElement>> },
    ColumnSet { columns: Option<Vec<Column>> },
    Unknown,
}

/// A `text` field: a plain string or a rich text object.
pub enum TextValue {
    Plain(String),
    Rich(RichText),
}

/// A link for several platforms.
pub struct MultiUrl {
    pub url: Option<String>,
}

/// One field of a `div`.
pub struct Field {
    pub text: Option<RichText>,
}

/// One column of a `column_set`.
pub struct Column {
    pub elements: Option<Vec<CardElement>>,
}

/// The text of an optional string, when it is present and not empty.
pub open spec fn nonempty(o: Option<String>) -> Option<Seq<char>> {
    match o {
        Some(s) => if s@.len() > 0 { Some(s@) } else { None },
        None => None,
    }
}

/// The view of an optional string slice.
pub open spec fn str_opt_view(o: Option<&str>) -> Option<Seq<char>> {
    match o {
        Some(s) => Some(s@),
        None => None,
    }
}

/// One part for a present text, none for an absent one.
pub open spec fn part_of(o: Option<Seq<char>>) -> Seq<Seq<char>> {
    match o {
        Some(t) => seq![t],
        None => seq![],
    }
}

/// One part `prefix` + text for a present text, none for an absent one.
pub open spec fn labelled_part(prefix: Seq<char>, o: Option<Seq<char>>) -> Seq<Seq<char>> {
    match o {
        Some(t) => seq![prefix + t],
        None => seq![],
    }
}

impl RichText {
    /// `content` when it is present and not empty, else `text` likewise.
    pub open spec fn effective(self) -> Option<Seq<char>> {
        match nonempty(self.content) {
            Some(c) => Some(c),
            None => nonempty(self.text),
        }
    }

    /// The text of this object: `content`, else `text`, whichever is first
    /// present and not empty.
    pub fn effective_text(&self) -> (r: Option<&str>)
        ensures
            str_opt_view(r) == self.effective(),
    {
        match &self.content {
            Some(c) if !str_is_empty(c.as_str()) => {
                return Some(c.as_str());
            },
            _ => {},
        }
        match &self.text {
            Some(t) if !str_is_empty(t.as_str()) => Some(t.as_str()),
            _ => None,
        }
    }
}

/// The effective text of an optional rich text object.
pub open spec fn rich_opt(r: Option<RichText>) -> Option<Seq<char>> {
    match r {
        Some(r) => r.effective(),
        None => None,
    }
}

/// The text of a `title` value.
pub open spec fn title_text(t: TitleValue) -> Option<Seq<char>> {
    match t {
        TitleValue::Text(s) => if s@.len() > 0 { Some(s@) } else { None },
        TitleValue::Rich(r) => r.effective(),
    }
}

/// The text of a `div`'s `text` value.
pub open spec fn text_value_text(t: TextValue) -> Option<Seq<char>> {
    match t {
        TextValue::Plain(s) => if s@.len() > 0 { Some(s@) } else { None },
        TextValue::Rich(r) => r.effective(),
    }
}

/// The link of a button: its `url` when not empty, else its `multi_url.url`.
pub open spec fn button_link(url: Option<String>, multi_url: Option<MultiUrl>) -> Option<Seq<char>> {
    match nonempty(url) {
        Some(u) => Some(u),
        None => match multi_url {
            Some(m) => nonempty(m.url),
            None => None,
        },
    }
}

/// The parts of the fields of a `div`, in order.
pub open spec fn fields_parts(s: Seq<Field>) -> Seq<Seq<char>>
    decreases s.len(),
{
    if s.len() == 0 {
        seq![]
    } else {
        fields_parts(s.drop_last()) + part_of(rich_opt(s.last().text))
    }
}

/// The parts that one element yields, in order.
pub open spec fn element_parts(el: CardElement) -> Seq<Seq<char>>
    decreases el,
{
    match el {
        CardElement::Markdown { content } => part_of(nonempty(content)),
        CardElement::LarkMd { content } => part_of(nonempty(content)),
        CardElement::PlainText { content } => part_of(nonempty(content)),
        CardElement::Div { text, fields } => {
            let t = match text {
                Some(t) => text_value_text(t),
                None => None,
            };
            part_of(t) + match fields {
                Some(f) => fields_parts(f@),
                None => seq![],
            }
        },
        CardElement::A { href, text } => labelled_part("link: "@, nonempty(href)) + part_of(
            nonempty(text),
        ),
        CardElement::Button { text, url, multi_url } => part_of(rich_opt(text)) + labelled_part(
            "link: "@,
            button_link(url, multi_url),
        ),
        CardElement::Img { alt } => seq![
            match rich_opt(alt) {
                Some(t) => t,
                None => "[image]"@,
            },
        ],
        CardElement::Note { elements } => match elements {
            Some(v) => elements_parts(v@),
            None => seq![],
        },
        CardElement::ColumnSet { columns } => match columns {
            Some(c) => columns_parts(c@),
            None => seq![],
        },
        CardElement::Unknown => seq![],
    }
}

/// The parts of a list of elements, in order.
pub open spec fn elements_parts(s: Seq<CardElement>) -> Seq<Seq<char>>
    decreases s,
{
    if s.len() == 0 {
        seq![]
    } else {
        elements_parts(s.subrange(0, s.len() - 1)) + element_parts(s[s.len() - 1])
    }
}

/// The parts of the columns of a `column_set`, in order.
pub open spec fn columns_parts(s: Seq<Column>) -> Seq<Seq<char>>
    decreases s,
{
    if s.len() == 0 {
        seq![]
    } else {
        columns_parts(s.subrange(0, s.len() - 1)) + match s[s.len() - 1].elements {
            Some(v) => elements_parts(v@),
            None => seq![],
        }
    }
}

/// The parts of one entry of `elements`.
pub open spec fn row_parts(r: ElementRow) -> Seq<Seq<char>> {
    match r {
        ElementRow::Array(v) => elements_parts(v@),
        ElementRow::Single(b) => element_parts(*b),
    }
}

/// The parts of the entries of `elements`, in order.
pub open spec fn rows_parts(s: Seq<ElementRow>) -> Seq<Seq<char>>
    decreases s.len(),
{
    if s.len() == 0 {
        seq![]
    } else {
        rows_parts(s.drop_last()) + row_parts(s.last())
    }
}

/// The text of a card's `title`.
pub open spec fn card_title(card: InteractiveContent) -> Option<Seq<char>> {
    match card.title {
        Some(t) => title_text(t),
        None => None,
    }
}

/// The parts of a card's `elements`.
pub open spec fn card_rows(card: InteractiveContent) -> Seq<Seq<char>> {
    match card.elements {
        Some(v) => rows_parts(v@),
        None => seq![],
    }
}

/// The text of a card's `header.title`.
pub open spec fn card_header(card: InteractiveContent) -> Option<Seq<char>> {
    match card.header {
        Some(h) => rich_opt(h.title),
        None => None,
    }
}

/// The parts of a card: its title, its elements, the inner card's parts, and the
/// header's title, in that order.
pub open spec fn card_parts(card: InteractiveContent) -> Seq<Seq<char>>
    decreases card,
{
    let inner = match card.card {
        Some(b) => card_parts(*b),
        None => seq![],
    };
    labelled_part("title: "@, card_title(card)) + card_rows(card) + inner + labelled_part(
        "title: "@,
        card_header(card),
    )
}

/// The views of `v` with one more string pushed.
proof fn lemma_views_push(v: Seq<String>, s: String)
    ensures
        views(v.push(s)) =~= views(v).push(s@),
{
}

/// Appends `t` as a new part.
fn push_text(parts: &mut Vec<String>, t: &str)
    ensures
        views(final(parts)@) == views(old(parts)@).push(t@),
{
    let ghost before = parts@;
    parts.push(String::from_str(t));
    proof {
        lemma_views_push(before, parts@.last());
    }
}

/// Appends `t`, when present, as a new part.
fn push_opt(parts: &mut Vec<String>, o: Option<&str>)
    ensures
        views(final(parts)@) == views(old(parts)@) + part_of(str_opt_view(o)),
{
    match o {
        Some(t) => push_text(parts, t),
        None => {
            assert(views(parts@) =~= views(parts@) + part_of(str_opt_view(o)));
        },
    }
}

/// Appends `prefix` + `t`, when `t` is present, as a new part.
fn push_labelled(parts: &mut Vec<String>, prefix: &str, o: Option<&str>)
    ensures
        views(final(parts)@) == views(old(parts)@) + labelled_part(prefix@, str_opt_view(o)),
{
    match o {
        Some(t) => {
            let s = concat_str(prefix, t);
            push_text(parts, s.as_str());
        },
        None => {
            assert(views(parts@) =~= views(parts@) + labelled_part(prefix@, str_opt_view(o)));
        },
    }
}

/// The text of an optional string, when present and not empty.
fn nonempty_str(o: &Option<String>) -> (r: Option<&str>)
    ensures
        str_opt_view(r) == nonempty(*o),
{
    match o {
        Some(s) if !str_is_empty(s.as_str()) => Some(s.as_str()),
        _ => None,
    }
}

/// The effective text of an optional rich text object.
fn rich_opt_text(r: &Option<RichText>) -> (t: Option<&str>)
    ensures
        str_opt_view(t) == rich_opt(*r),
{
    match r {
        Some(r) => r.effective_text(),
        None => None,
    }
}

/// Appends the parts of the fields of a `div`.
fn extract_fields(f: &Vec<Field>, parts: &mut Vec<String>)
    ensures
        views(final(parts)@) == views(old(parts)@) + fields_parts(f@),
{
    let ghost start = views(parts@);
    let mut i: usize = 0;
    while i < f.len()
        invariant
            i <= f@.len(),
            views(parts@) == start + fields_parts(f@.take(i as int)),
        decreases f@.len() - i,
    {
        assert(f@.take(i + 1).drop_last() =~= f@.take(i as int));
        push_opt(parts, rich_opt_text(&f[i].text));
        i = i + 1;
    }
    assert(f@.take(f@.len() as int) =~= f@);
}

/// Appends the parts of a list of elements, in order.
fn extract_elements(v: &Vec<CardElement>, parts: &mut Vec<String>)
    ensures
        views(final(parts)@) == views(old(parts)@) + elements_parts(v@),
    decreases v,
{
    let ghost start = views(parts@);
    let mut i: usize = 0;
    while i < v.len()
        invariant
            i <= v@.len(),
            views(parts@) == start + elements_parts(v@.subrange(0, i as int)),
        decreases v@.len() - i,
    {
        assert(v@.subrange(0, i + 1).subrange(0, i as int) =~= v@.subrange(0, i as int));
        assert(v@.subrange(0, i + 1)[i as int] == v@[i as int]);
        proof {
            assert(decreases_to!(v => v@));
            assert(decreases_to!(v@ => v@[i as int]));
        }
        extract_element(&v[i], parts);
        i = i + 1;
    }
    assert(v@.subrange(0, v@.len() as int) =~= v@);
}

/// Appends the parts of the columns of a `column_set`, in order.
fn extract_columns(c: &Vec<Column>, parts: &mut Vec<String>)
    ensures
        views(final(parts)@) == views(old(parts)@) + columns_parts(c@),
    decreases c,
{
    let ghost start = views(parts@);
    let mut i: usize = 0;
    while i < c.len()
        invariant
            i <= c@.len(),
            views(parts@) == start + columns_parts(c@.subrange(0, i as int)),
        decreases c@.len() - i,
    {
        assert(c@.subrange(0, i + 1).subrange(0, i as int) =~= c@.subrange(0, i as int));
        assert(c@.subrange(0, i + 1)[i as int] == c@[i as int]);
        match &c[i].elements {
            Some(e) => {
                proof {
                    assert(decreases_to!(c => c@));
                    assert(decreases_to!(c@ => c@[i as int]));
                    assert(decreases_to!(c@[i as int] => c@[i as int].elements));
                }
                extract_elements(e, parts);
            },
            None => {
                assert(views(parts@) =~= views(parts@) + seq![]);
            },
        }
        i = i + 1;
    }
    assert(c@.subrange(0, c@.len() as int) =~= c@);
}

/// Appends the parts of one element, by its kind: the text of a markdown, lark_md
/// or plain_text element; a div's text and its fields' texts; a link's
/// `link: href` and text; a button's text and `link: url`; an image's alt text or
/// `[image]`; the parts of a note's or a column set's nested elements.
pub fn extract_element(el: &CardElement, parts: &mut Vec<String>)
    ensures
        views(final(parts)@) == views(old(parts)@) + element_parts(*el),
    decreases el,
{
    match el {
        CardElement::Markdown { content } => push_opt(parts, nonempty_str(content)),
        CardElement::LarkMd { content } => push_opt(parts, nonempty_str(content)),
        CardElement::PlainText { content } => push_opt(parts, nonempty_str(content)),
        CardElement::Div { text, fields } => {
            let t = match text {
                Some(TextValue::Plain(s)) => if !str_is_empty(s.as_str()) {
                    Some(s.as_str())
                } else {
                    None
                },
                Some(TextValue::Rich(r)) => r.effective_text(),
                None => None,
            };
            push_opt(parts, t);
            match fields {
                Some(f) => extract_fields(f, parts),
                None => {
                    assert(views(parts@) =~= views(parts@) + seq![]);
                },
            }
        },
        CardElement::A { href, text } => {
            push_labelled(parts, "link: ", nonempty_str(href));
            push_opt(parts, nonempty_str(text));
        },
        CardElement::Button { text, url, multi_url } => {
            push_opt(parts, rich_opt_text(text));
            let link = match nonempty_str(url) {
                Some(u) => Some(u),
                None => match multi_url {
                    Some(m) => nonempty_str(&m.url),
                    None => None,
                },
            };
            push_labelled(parts, "link: ", link);
        },
        CardElement::Img { alt } => {
            let t = match rich_opt_text(alt) {
                Some(t) => t,
                None => "[image]",
            };
            push_text(parts, t);
        },
        CardElement::Note { elements } => match elements {
            Some(v) => extract_elements(v, parts),
            None => {
                assert(views(parts@) =~= views(parts@) + seq![]);
            },
        },
        CardElement::ColumnSet { columns } => match columns {
            Some(c) => extract_columns(c, parts),
            None => {
                assert(views(parts@) =~= views(parts@) + seq![]);
            },
        },
        CardElement::Unknown => {
            assert(views(parts@) =~= views(parts@) + seq![]);
        },
    }
}

/// Appends the parts of the entries of `elements`, in order.
fn extract_rows(rows: &Vec<ElementRow>, parts: &mut Vec<String>)
    ensures
        views(final(parts)@) == views(old(parts)@) + rows_parts(rows@),
{
    let ghost start = views(parts@);
    let mut i: usize = 0;
    while i < rows.len()
        invariant
            i <= rows@.len(),
            views(parts@) == start + rows_parts(rows@.take(i as int)),
        decreases rows@.len() - i,
    {
        assert(rows@.take(i + 1).drop_last() =~= rows@.take(i as int));
        match &rows[i] {
            ElementRow::Array(v) => extract_elements(v, parts),
            ElementRow::Single(b) => extract_element(b, parts),
        }
        i = i + 1;
    }
    assert(rows@.take(rows@.len() as int) =~= rows@);
}

/// Appends the parts of a card: `title: ` and its title, the parts of its
/// elements, the parts of the inner card, and `title: ` and the header's title.
pub fn extract_parts(card: &InteractiveContent, parts: &mut Vec<String>)
    ensures
        views(final(parts)@) == views(old(parts)@) + card_parts(*card),
    decreases card,
{
    let ghost start = views(parts@);
    let title = match &card.title {
        Some(TitleValue::Text(s)) => if !str_is_empty(s.as_str()) {
            Some(s.as_str())
        } else {
            None
        },
        Some(TitleValue::Rich(r)) => r.effective_text(),
        None => None,
    };
    push_labelled(parts, "title: ", title);
    let ghost p1 = views(parts@);
    match &card.elements {
        Some(rows) => extract_rows(rows, parts),
        None => {
            assert(views(parts@) =~= views(parts@) + seq![]);
        },
    }
    let ghost p2 = views(parts@);
    assert(p2 == p1 + card_rows(*card));
    match &card.card {
        Some(c) => extract_parts(c, parts),
        None => {
            assert(views(parts@) =~= views(parts@) + seq![]);
        },
    }
    let ghost p3 = views(parts@);
    let header = match &card.header {
        Some(h) => rich_opt_text(&h.title),
        None => None,
    };
    push_labelled(parts, "title: ", header);
    assert(views(parts@) =~= start + card_parts(*card));
}

/// The text of an interactive card: its parts (see `extract_parts`) joined with
/// line breaks. Reading the message JSON into the card is the caller's step.
pub fn extract_interactive_content(card: &InteractiveContent) -> (r: String)
    ensures
        r@ == join_spec(card_parts(*card), "\n"@),
{
    let mut parts: Vec<String> = Vec::new();
    extract_parts(card, &mut parts);
    assert(views(Seq::<String>::empty()) =~= Seq::<Seq<char>>::empty());
    assert(views(parts@) =~= Seq::<Seq<char>>::empty() + card_parts(*card));
    join_strings(parts.as_slice(), "\n")
}

} // verus!

verus! {

/// A div yields its own text (when present and not empty) first, and then exactly
/// what it would yield without that text: its fields' texts. Having fields never
/// drops the div's text.
pub proof fn law_div_text_then_fields(tv: TextValue, fields: Option<Vec<Field>>)
    requires
        text_value_text(tv) is Some,
    ensures
        element_parts(CardElement::Div { text: Some(tv), fields }) == seq![text_value_text(tv).unwrap()]
            + element_parts(CardElement::Div { text: None, fields }),
{
    let rest = match fields {
        Some(f) => fields_parts(f@),
        None => seq![],
    };
    assert(seq![text_value_text(tv).unwrap()] + (Seq::<Seq<char>>::empty() + rest) =~= seq![text_value_text(tv).unwrap()]
        + rest);
    assert(Seq::<Seq<char>>::empty() + rest =~= rest);
}

proof fn lemma_fields_parts_concat(a: Seq<Field>, b: Seq<Field>)
    ensures
        fields_parts(a + b) == fields_parts(a) + fields_parts(b),
    decreases b.len(),
{
    if b.len() == 0 {
        assert(a + b =~= a);
        assert(fields_parts(a) + fields_parts(b) =~= fields_parts(a));
    } else {
        lemma_fields_parts_concat(a, b.drop_last());
        assert((a + b).drop_last() =~= a + b.drop_last());
        assert(fields_parts(a) + fields_parts(b) =~= fields_parts(a) + fields_parts(b.drop_last()) + part_of(
            rich_opt(b.last().text),
        ));
    }
}

/// Every field of a div that has a text is kept, at its place: the div's parts
/// hold the text of each of its fields, and a div with a text of its own holds
/// that text before them.
pub proof fn law_div_keeps_every_field(text: Option<TextValue>, fields: Vec<Field>, i: int)
    requires
        0 <= i < fields@.len(),
        rich_opt(fields@[i].text) is Some,
    ensures
        element_parts(CardElement::Div { text, fields: Some(fields) }).contains(rich_opt(fields@[i].text).unwrap()),
{
    let f = fields@;
    let x = rich_opt(f[i].text).unwrap();
    lemma_fields_parts_concat(f.take(i), f.skip(i));
    assert(f.take(i) + f.skip(i) =~= f);
    let rest = f.skip(i);
    lemma_fields_parts_concat(seq![rest[0]], rest.drop_first());
    assert(seq![rest[0]] + rest.drop_first() =~= rest);
    assert(seq![rest[0]].drop_last() =~= Seq::<Field>::empty());
    assert(rest[0] == f[i]);
    assert(seq![rest[0]].last() == rest[0]);
    assert(fields_parts(Seq::<Field>::empty()) == Seq::<Seq<char>>::empty());
    assert(fields_parts(seq![rest[0]]) =~= seq![x]);
    let k: int = fields_parts(f.take(i)).len() as int;
    assert(fields_parts(f)[k] == x);
    let t = match text {
        Some(t) => text_value_text(t),
        None => None,
    };
    let parts = element_parts(CardElement::Div { text, fields: Some(fields) });
    assert(parts == part_of(t) + fields_parts(f));
    assert(parts[part_of(t).len() + k] == x);
}

} // verus!
