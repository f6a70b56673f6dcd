//! Text extraction from Feishu post (rich text) messages.
//!
//! A post's content comes in three shapes:
//! 1. `{"post": {"zh_cn": {"title": ..., "content": [[...]]}}}`, wrapped in `post`;
//! 2. `{"zh_cn": {"title": ..., "content": [[...]]}}`, a locale directly;
//! 3. `{"title": ..., "content": [[...]]}`, the content directly.
//!
//! Each row of `content` holds elements told apart by their `tag`
//! (text, a, at, img). The JSON is read into these types by the caller.

use vstd::prelude::*;

use crate::channels::feishu::interactive::{nonempty, part_of};
use crate::text::{concat_str, join_spec, join_strings, str_is_empty, views};

verus! {

/// A post message, in any of its three shapes.
pub struct PostContent {
    /// Shape 1: the entries of the `post` map, in the order the map yields them.
    pub post: Option<Vec<(String, LocaleContent)>>,
    /// Shape 2: the locales given directly.
    pub zh_cn: Option<LocaleContent>,
    pub en_us: Option<LocaleContent>,
    pub ja_jp: Option<LocaleContent>,
    /// Shape 3: the title and rows given directly.
    pub title: Option<String>,
    pub content: Option<Vec<Vec<PostElement>>>,
}

/// The rich text of one locale.
pub struct LocaleContent {
    /// An optional title.
    pub title: Option<String>,
    /// The rows; each row is a list of elements.
    pub content: Vec<Vec<PostElement>>,
}

/// One element of a post row, by its `tag`.
#[allow(inconsistent_fields)]
pub enum PostElement {
    /// Plain text.
    Text { text: Option<String> },
    /// A hyperlink.
    A { text: Option<String>, href: Option<String> },
    /// A mention.
    At { user_id: Option<String> },
    /// An embedded image.
    Img { image_key: Option<String> },
    /// Any other tag.
    Unknown,
}

impl Clone for PostElement {
    fn clone(&self) -> (r: Self)
        ensures
            r == *self,
    {
        match self {
            PostElement::Text { text } => PostElement::Text { text: clone_opt(text) },
            PostElement::A { text, href } => PostElement::A { text: clone_opt(text), href: clone_opt(href) },
            PostElement::At { user_id } => PostElement::At { user_id: clone_opt(user_id) },
            PostElement::Img { image_key } => PostElement::Img { image_key: clone_opt(image_key) },
            PostElement::Unknown => PostElement::Unknown,
        }
    }
}

/// A copy of an optional string.
fn clone_opt(o: &Option<String>) -> (r: Option<String>)
    ensures
        r == *o,
{
    match o {
        Some(s) => Some(s.clone()),
        None => None,
    }
}

/// The rows of a locale, each row as the sequence of its elements.
pub open spec fn rows_view(rows: Seq<Vec<PostElement>>) -> Seq<Seq<PostElement>> {
    Seq::new(rows.len(), |i: int| rows[i]@)
}

impl View for LocaleContent {
    type V = (Option<String>, Seq<Seq<PostElement>>);

    open spec fn view(&self) -> (Option<String>, Seq<Seq<PostElement>>) {
        (self.title, rows_view(self.content@))
    }
}

/// A copy of one row.
fn copy_row(row: &Vec<PostElement>) -> (r: Vec<PostElement>)
    ensures
        r@ == row@,
{
    let mut r: Vec<PostElement> = Vec::new();
    let mut i: usize = 0;
    while i < row.len()
        invariant
            i <= row@.len(),
            r@ == row@.take(i as int),
        decreases row@.len() - i,
    {
        r.push(row[i].clone());
        assert(row@.take(i + 1) =~= row@.take(i as int).push(row@[i as int]));
        i = i + 1;
    }
    assert(row@.take(row@.len() as int) =~= row@);
    r
}

/// A copy of a list of rows.
fn copy_rows(rows: &Vec<Vec<PostElement>>) -> (r: Vec<Vec<PostElement>>)
    ensures
        rows_view(r@) == rows_view(rows@),
{
    let mut r: Vec<Vec<PostElement>> = Vec::new();
    let mut i: usize = 0;
    while i < rows.len()
        invariant
            i <= rows@.len(),
            r@.len() == i,
            rows_view(r@) == rows_view(rows@.take(i as int)),
        decreases rows@.len() - i,
    {
        let row = copy_row(&rows[i]);
        let ghost prev = r@;
        let ghost rv = row@;
        r.push(row);
        assert(r@ == prev.push(r@[i as int]));
        assert(r@[i as int]@ == rv);
        assert forall|j: int| 0 <= j < i + 1 implies #[trigger] rows_view(r@)[j] == rows_view(
            rows@.take(i + 1),
        )[j] by {
            if j < i {
                assert(rows_view(prev)[j] == rows_view(rows@.take(i as int))[j]);
                assert(r@[j] == prev[j]);
            }
        }
        assert(rows_view(r@) =~= rows_view(rows@.take(i + 1)));
        i = i + 1;
    }
    assert(rows@.take(rows@.len() as int) =~= rows@);
    r
}

/// A copy of a locale.
fn copy_locale(lc: &LocaleContent) -> (r: LocaleContent)
    ensures
        r@ == lc@,
{
    LocaleContent { title: clone_opt(&lc.title), content: copy_rows(&lc.content) }
}

/// Whether a locale has at least one row.
pub open spec fn has_rows(lc: LocaleContent) -> bool {
    lc.content@.len() > 0
}

/// The locale stored under `key` among the map's entries (the first such entry).
pub open spec fn entry_for(s: Seq<(String, LocaleContent)>, key: Seq<char>) -> Option<LocaleContent>
    decreases s.len(),
{
    if s.len() == 0 {
        None
    } else {
        match entry_for(s.drop_last(), key) {
            Some(lc) => Some(lc),
            None => if s.last().0@ == key {
                Some(s.last().1)
            } else {
                None
            },
        }
    }
}

/// The first locale with rows among the map's entries.
pub open spec fn first_with_rows(s: Seq<(String, LocaleContent)>) -> Option<LocaleContent>
    decreases s.len(),
{
    if s.len() == 0 {
        None
    } else {
        match first_with_rows(s.drop_last()) {
            Some(lc) => Some(lc),
            None => if has_rows(s.last().1) {
                Some(s.last().1)
            } else {
                None
            },
        }
    }
}

/// `o` when it is a locale with rows.
pub open spec fn with_rows(o: Option<LocaleContent>) -> Option<LocaleContent> {
    match o {
        Some(lc) => if has_rows(lc) {
            Some(lc)
        } else {
            None
        },
        None => None,
    }
}

/// The first of two choices that is present.
pub open spec fn or_else<T>(a: Option<T>, b: Option<T>) -> Option<T> {
    match a {
        Some(x) => Some(x),
        None => b,
    }
}

/// The locale chosen from the `post` map: `zh_cn`, `en_us`, `ja_jp` in that order
/// (each only with rows), else the first entry with rows.
pub open spec fn map_choice(s: Seq<(String, LocaleContent)>) -> Option<LocaleContent> {
    or_else(
        with_rows(entry_for(s, "zh_cn"@)),
        or_else(
            with_rows(entry_for(s, "en_us"@)),
            or_else(with_rows(entry_for(s, "ja_jp"@)), first_with_rows(s)),
        ),
    )
}

/// The view of the locale that a post's text is taken from: shape 1, else shape 2
/// (`zh_cn`, `en_us`, `ja_jp`, each only with rows), else shape 3 when it has rows.
pub open spec fn resolve_spec(pc: PostContent) -> Option<(Option<String>, Seq<Seq<PostElement>>)> {
    let from_map = match pc.post {
        Some(m) => map_choice(m@),
        None => None,
    };
    let direct = or_else(with_rows(pc.zh_cn), or_else(with_rows(pc.en_us), with_rows(pc.ja_jp)));
    match or_else(from_map, direct) {
        Some(lc) => Some(lc@),
        None => match pc.content {
            Some(rows) => if rows@.len() > 0 {
                Some((pc.title, rows_view(rows@)))
            } else {
                None
            },
            None => None,
        },
    }
}

/// The entry stored under `key` among the map's entries, when it has rows.
fn keyed_with_rows<'a>(entries: &'a Vec<(String, LocaleContent)>, key: &str) -> (r: Option<
    &'a LocaleContent,
>)
    ensures
        match r {
            Some(lc) => with_rows(entry_for(entries@, key@)) == Some(*lc),
            None => with_rows(entry_for(entries@, key@)) is None,
        },
{
    let k = String::from_str(key);
    let mut i: usize = 0;
    while i < entries.len()
        invariant
            i <= entries@.len(),
            k@ == key@,
            entry_for(entries@.take(i as int), key@) is None,
        decreases entries@.len() - i,
    {
        assert(entries@.take(i + 1).drop_last() =~= entries@.take(i as int));
        if entries[i].0 == k {
            proof {
                lemma_entry_for_prefix(entries@, key@, i + 1);
            }
            if entries[i].1.content.len() > 0 {
                return Some(&entries[i].1);
            } else {
                return None;
            }
        }
        i = i + 1;
    }
    assert(entries@.take(entries@.len() as int) =~= entries@);
    None
}

/// Once a prefix holds an entry for `key`, the whole list gives that entry.
proof fn lemma_entry_for_prefix(s: Seq<(String, LocaleContent)>, key: Seq<char>, n: int)
    requires
        0 <= n <= s.len(),
        entry_for(s.take(n), key) is Some,
    ensures
        entry_for(s, key) == entry_for(s.take(n), key),
    decreases s.len() - n,
{
    if n < s.len() {
        assert(s.take(n + 1).drop_last() =~= s.take(n));
        lemma_entry_for_prefix(s, key, n + 1);
    } else {
        assert(s.take(n) =~= s);
    }
}

/// Once a prefix holds an entry with rows, the whole list gives that entry.
proof fn lemma_first_with_rows_prefix(s: Seq<(String, LocaleContent)>, n: int)
    requires
        0 <= n <= s.len(),
        first_with_rows(s.take(n)) is Some,
    ensures
        first_with_rows(s) == first_with_rows(s.take(n)),
    decreases s.len() - n,
{
    if n < s.len() {
        assert(s.take(n + 1).drop_last() =~= s.take(n));
        lemma_first_with_rows_prefix(s, n + 1);
    } else {
        assert(s.take(n) =~= s);
    }
}

/// The first entry with rows among the map's entries.
fn first_entry_with_rows(entries: &Vec<(String, LocaleContent)>) -> (r: Option<&LocaleContent>)
    ensures
        match r {
            Some(lc) => first_with_rows(entries@) == Some(*lc),
            None => first_with_rows(entries@) is None,
        },
{
    let mut i: usize = 0;
    while i < entries.len()
        invariant
            i <= entries@.len(),
            first_with_rows(entries@.take(i as int)) is None,
        decreases entries@.len() - i,
    {
        assert(entries@.take(i + 1).drop_last() =~= entries@.take(i as int));
        if entries[i].1.content.len() > 0 {
            proof {
                lemma_first_with_rows_prefix(entries@, i + 1);
            }
            return Some(&entries[i].1);
        }
        i = i + 1;
    }
    assert(entries@.take(entries@.len() as int) =~= entries@);
    None
}

/// The locale of the `post` map, chosen as `map_choice` says.
fn choose_from_map(entries: &Vec<(String, LocaleContent)>) -> (r: Option<&LocaleContent>)
    ensures
        match r {
            Some(lc) => map_choice(entries@) == Some(*lc),
            None => map_choice(entries@) is None,
        },
{
    proof {
        reveal_strlit("zh_cn");
        reveal_strlit("en_us");
        reveal_strlit("ja_jp");
    }
    if let Some(lc) = keyed_with_rows(entries, "zh_cn") {
        return Some(lc);
    }
    if let Some(lc) = keyed_with_rows(entries, "en_us") {
        return Some(lc);
    }
    if let Some(lc) = keyed_with_rows(entries, "ja_jp") {
        return Some(lc);
    }
    first_entry_with_rows(entries)
}

/// The locale that a post's text is taken from: from the `post` map (`zh_cn`,
/// `en_us`, `ja_jp`, else its first entry with rows), else the first of the direct
/// `zh_cn`, `en_us`, `ja_jp` with rows, else the direct title and rows when there
/// are rows; `None` when there is none.
pub fn resolve_locale(pc: &PostContent) -> (r: Option<LocaleContent>)
    ensures
        match r {
            Some(lc) => resolve_spec(*pc) == Some(lc@),
            None => resolve_spec(*pc) is None,
        },
{
    if let Some(map) = &pc.post {
        if let Some(lc) = choose_from_map(map) {
            return Some(copy_locale(lc));
        }
    }
    if let Some(lc) = &pc.zh_cn {
        if lc.content.len() > 0 {
            return Some(copy_locale(lc));
        }
    }
    if let Some(lc) = &pc.en_us {
        if lc.content.len() > 0 {
            return Some(copy_locale(lc));
        }
    }
    if let Some(lc) = &pc.ja_jp {
        if lc.content.len() > 0 {
            return Some(copy_locale(lc));
        }
    }
    if let Some(rows) = &pc.content {
        if rows.len() > 0 {
            return Some(LocaleContent { title: clone_opt(&pc.title), content: copy_rows(rows) });
        }
    }
    None
}

/// The text parts of one element: the text of a text or link element when not
/// empty, `@` and the mentioned user (or `user`) for a mention.
pub open spec fn element_texts(e: PostElement) -> Seq<Seq<char>> {
    match e {
        PostElement::Text { text } => part_of(nonempty(text)),
        PostElement::A { text, href: _ } => part_of(nonempty(text)),
        PostElement::At { user_id } => seq![
            "@"@ + match user_id {
                Some(u) => u@,
                None => "user"@,
            },
        ],
        _ => seq![],
    }
}

/// The image keys of one element: an image's key when not empty.
pub open spec fn element_images(e: PostElement) -> Seq<Seq<char>> {
    match e {
        PostElement::Img { image_key } => part_of(nonempty(image_key)),
        _ => seq![],
    }
}

/// The text parts of a row, in order.
pub open spec fn row_texts(row: Seq<PostElement>) -> Seq<Seq<char>>
    decreases row.len(),
{
    if row.len() == 0 {
        seq![]
    } else {
        row_texts(row.drop_last()) + element_texts(row.last())
    }
}

/// The image keys of a row, in order.
pub open spec fn row_images(row: Seq<PostElement>) -> Seq<Seq<char>>
    decreases row.len(),
{
    if row.len() == 0 {
        seq![]
    } else {
        row_images(row.drop_last()) + element_images(row.last())
    }
}

/// The text parts of the rows, in order.
pub open spec fn rows_texts(rows: Seq<Seq<PostElement>>) -> Seq<Seq<char>>
    decreases rows.len(),
{
    if rows.len() == 0 {
        seq![]
    } else {
        rows_texts(rows.drop_last()) + row_texts(rows.last())
    }
}

/// The image keys of the rows, in order.
pub open spec fn rows_images(rows: Seq<Seq<PostElement>>) -> Seq<Seq<char>>
    decreases rows.len(),
{
    if rows.len() == 0 {
        seq![]
    } else {
        rows_images(rows.drop_last()) + row_images(rows.last())
    }
}

/// The text parts of a locale: its title when not empty, then the rows' parts.
pub open spec fn locale_texts(v: (Option<String>, Seq<Seq<PostElement>>)) -> Seq<Seq<char>> {
    part_of(nonempty(v.0)) + rows_texts(v.1)
}

/// The text of a locale: its text parts joined with spaces.
pub open spec fn locale_text(v: (Option<String>, Seq<Seq<PostElement>>)) -> Seq<char> {
    join_spec(locale_texts(v), " "@)
}

/// Appends the text parts and the image keys of one row.
fn extract_row(row: &Vec<PostElement>, texts: &mut Vec<String>, images: &mut Vec<String>)
    ensures
        views(final(texts)@) == views(old(texts)@) + row_texts(row@),
        views(final(images)@) == views(old(images)@) + row_images(row@),
{
    let ghost t0 = views(texts@);
    let ghost i0 = views(images@);
    let mut j: usize = 0;
    while j < row.len()
        invariant
            j <= row@.len(),
            views(texts@) == t0 + row_texts(row@.take(j as int)),
            views(images@) == i0 + row_images(row@.take(j as int)),
        decreases row@.len() - j,
    {
        assert(row@.take(j + 1).drop_last() =~= row@.take(j as int));
        let ghost t1 = views(texts@);
        let ghost i1 = views(images@);
        match &row[j] {
            PostElement::Text { text } => {
                if let Some(t) = text {
                    if !str_is_empty(t.as_str()) {
                        texts.push(t.clone());
                    }
                }
            },
            PostElement::A { text, href: _ } => {
                if let Some(t) = text {
                    if !str_is_empty(t.as_str()) {
                        texts.push(t.clone());
                    }
                }
            },
            PostElement::At { user_id } => {
                let who: &str = match user_id {
                    Some(u) => u.as_str(),
                    None => "user",
                };
                texts.push(concat_str("@", who));
            },
            PostElement::Img { image_key } => {
                if let Some(k) = image_key {
                    if !str_is_empty(k.as_str()) {
                        images.push(k.clone());
                    }
                }
            },
            PostElement::Unknown => {},
        }
        assert(views(texts@) =~= t1 + element_texts(row@[j as int]));
        assert(views(images@) =~= i1 + element_images(row@[j as int]));
        j = j + 1;
    }
    assert(row@.take(row@.len() as int) =~= row@);
}

/// The text and the image keys of a locale: the title (when not empty) and the
/// rows' text parts joined with spaces, and the rows' image keys in order.
pub fn extract_from_locale(locale: &LocaleContent) -> (r: (String, Vec<String>))
    ensures
        r.0@ == locale_text(locale@),
        views(r.1@) == rows_images(locale@.1),
{
    let mut texts: Vec<String> = Vec::new();
    let mut images: Vec<String> = Vec::new();
    if let Some(t) = &locale.title {
        if !str_is_empty(t.as_str()) {
            texts.push(t.clone());
        }
    }
    let ghost t0 = views(texts@);
    assert(t0 =~= part_of(nonempty(locale.title)));
    assert(views(images@) =~= Seq::<Seq<char>>::empty());
    let ghost rv = rows_view(locale.content@);
    let mut i: usize = 0;
    while i < locale.content.len()
        invariant
            i <= locale.content@.len(),
            rv == rows_view(locale.content@),
            views(texts@) == t0 + rows_texts(rv.take(i as int)),
            views(images@) == Seq::<Seq<char>>::empty() + rows_images(rv.take(i as int)),
        decreases locale.content@.len() - i,
    {
        assert(rv.take(i + 1).drop_last() =~= rv.take(i as int));
        assert(rv.take(i + 1).last() == locale.content@[i as int]@);
        extract_row(&locale.content[i], &mut texts, &mut images);
        i = i + 1;
    }
    assert(rv.take(rv.len() as int) =~= rv);
    assert(views(images@) =~= rows_images(rv));
    (join_strings(texts.as_slice(), " "), images)
}

/// The text and the image keys of a post: those of the locale that
/// `resolve_locale` picks, or an empty text and no keys when it picks none.
/// Reading the message JSON into the post is the caller's step.
pub fn extract_post_content(pc: &PostContent) -> (r: (String, Vec<String>))
    ensures
        match resolve_spec(*pc) {
            Some(v) => r.0@ == locale_text(v) && views(r.1@) == rows_images(v.1),
            None => r.0@ == Seq::<char>::empty() && r.1@.len() == 0,
        },
{
    match resolve_locale(pc) {
        Some(lc) => extract_from_locale(&lc),
        None => (String::new(), Vec::new()),
    }
}

} // verus!

verus! {

proof fn lemma_row_images_concat(a: Seq<PostElement>, b: Seq<PostElement>)
    ensures
        row_images(a + b) == row_images(a) + row_images(b),
    decreases b.len(),
{
    if b.len() == 0 {
        assert(a + b =~= a);
        assert(row_images(a) + row_images(b) =~= row_images(a));
    } else {
        lemma_row_images_concat(a, b.drop_last());
        assert((a + b).drop_last() =~= a + b.drop_last());
        assert(row_images(a) + row_images(b) =~= row_images(a) + row_images(b.drop_last()) + element_images(b.last()));
    }
}

/// The image keys of rows put one after the other are those of the first rows
/// followed by those of the others: no row's images are lost or reordered.
pub proof fn law_rows_images_concat(a: Seq<Seq<PostElement>>, b: Seq<Seq<PostElement>>)
    ensures
        rows_images(a + b) == rows_images(a) + rows_images(b),
    decreases b.len(),
{
    if b.len() == 0 {
        assert(a + b =~= a);
        assert(rows_images(a) + rows_images(b) =~= rows_images(a));
    } else {
        law_rows_images_concat(a, b.drop_last());
        assert((a + b).drop_last() =~= a + b.drop_last());
        assert(rows_images(a) + rows_images(b) =~= rows_images(a) + rows_images(b.drop_last()) + row_images(b.last()));
    }
}

/// Every image of a post is kept: an image element with a non-empty key, in any
/// row and at any place in it, has its key among the locale's image keys.
pub proof fn law_every_image_kept(rows: Seq<Seq<PostElement>>, a: int, b: int, key: String)
    requires
        0 <= a < rows.len(),
        0 <= b < rows[a].len(),
        rows[a][b] == (PostElement::Img { image_key: Some(key) }),
        key@.len() > 0,
    ensures
        rows_images(rows).contains(key@),
{
    let row = rows[a];
    lemma_row_images_concat(row.take(b), row.skip(b));
    assert(row.take(b) + row.skip(b) =~= row);
    let rest = row.skip(b);
    lemma_row_images_concat(seq![rest[0]], rest.drop_first());
    assert(seq![rest[0]] + rest.drop_first() =~= rest);
    assert(seq![rest[0]].drop_last() =~= Seq::<PostElement>::empty());
    assert(rest[0] == row[b]);
    assert(seq![rest[0]].last() == rest[0]);
    assert(row_images(Seq::<PostElement>::empty()) == Seq::<Seq<char>>::empty());
    assert(element_images(rest[0]) =~= seq![key@]);
    assert(row_images(seq![rest[0]]) =~= seq![key@]);
    assert(row_images(row)[row_images(row.take(b)).len() as int] == key@);
    law_rows_images_concat(rows.take(a), rows.skip(a));
    assert(rows.take(a) + rows.skip(a) =~= rows);
    let tail = rows.skip(a);
    law_rows_images_concat(seq![tail[0]], tail.drop_first());
    assert(seq![tail[0]] + tail.drop_first() =~= tail);
    assert(seq![tail[0]].drop_last() =~= Seq::<Seq<PostElement>>::empty());
    assert(tail[0] == rows[a]);
    assert(seq![tail[0]].last() == tail[0]);
    assert(rows_images(Seq::<Seq<PostElement>>::empty()) == Seq::<Seq<char>>::empty());
    assert(rows_images(seq![tail[0]]) =~= row_images(row));
    let i: int = (rows_images(rows.take(a)).len() + row_images(row.take(b)).len()) as int;
    assert(rows_images(rows)[i] == key@);
}

} // verus!
