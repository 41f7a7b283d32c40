//! Searchable, attributable history. Every result names the message it comes from, and messages of
//! deleted bots stay discoverable.
use crate::json;
use crate::json::Field;
use crate::table;
use crate::table::Row;
use crate::text;
use vstd::prelude::*;
use vstd::utf8::*;

verus! {

/// What to look for.
#[derive(Debug)]
pub struct EvidenceQuery {
    pub q: String,
    pub bot_id: Option<String>,
    pub project_id: Option<String>,
    /// The cursor that an earlier page handed out.
    pub before: Option<String>,
    pub limit: Option<i64>,
}

#[verifier::ext_equal]
pub struct QueryView {
    pub q: Seq<char>,
    pub bot_id: Option<Seq<char>>,
    pub project_id: Option<Seq<char>>,
    pub before: Option<Seq<char>>,
    pub limit: Option<i64>,
}

impl View for EvidenceQuery {
    type V = QueryView;

    open spec fn view(&self) -> QueryView {
        QueryView {
            q: self.q@,
            bot_id: text::opt(self.bot_id),
            project_id: text::opt(self.project_id),
            before: text::opt(self.before),
            limit: self.limit,
        }
    }
}

/// A message, with the bot and the project it belongs to.
#[derive(Debug)]
pub struct Evidence {
    pub id: String,
    pub bot_id: String,
    pub bot_name: String,
    pub project_id: String,
    pub project_label: String,
    pub bot_deleted: bool,
    pub turn_id: Option<String>,
    pub role: String,
    pub content: String,
    pub source: String,
    pub incomplete: bool,
    pub created_at: String,
}

#[verifier::ext_equal]
pub struct EvidenceView {
    pub id: Seq<char>,
    pub bot_id: Seq<char>,
    pub bot_name: Seq<char>,
    pub project_id: Seq<char>,
    pub project_label: Seq<char>,
    pub bot_deleted: bool,
    pub turn_id: Option<Seq<char>>,
    pub role: Seq<char>,
    pub content: Seq<char>,
    pub source: Seq<char>,
    pub incomplete: bool,
    pub created_at: Seq<char>,
}

impl View for Evidence {
    type V = EvidenceView;

    open spec fn view(&self) -> EvidenceView {
        EvidenceView {
            id: self.id@,
            bot_id: self.bot_id@,
            bot_name: self.bot_name@,
            project_id: self.project_id@,
            project_label: self.project_label@,
            bot_deleted: self.bot_deleted,
            turn_id: text::opt(self.turn_id),
            role: self.role@,
            content: self.content@,
            source: self.source@,
            incomplete: self.incomplete,
            created_at: self.created_at@,
        }
    }
}

impl Row for Evidence {
    fn copied(&self) -> (r: Self) {
        Evidence {
            id: self.id.clone(),
            bot_id: self.bot_id.clone(),
            bot_name: self.bot_name.clone(),
            project_id: self.project_id.clone(),
            project_label: self.project_label.clone(),
            bot_deleted: self.bot_deleted,
            turn_id: text::copied(&self.turn_id),
            role: self.role.clone(),
            content: self.content.clone(),
            source: self.source.clone(),
            incomplete: self.incomplete,
            created_at: self.created_at.clone(),
        }
    }
}

/// Why a query was not run.
#[derive(Debug, Clone, Copy, PartialEq, Eq, Structural)]
pub enum BadQuery {
    /// The words to look for are missing, or too many.
    Words,
    /// The cursor is none that was handed out.
    Cursor,
}

impl BadQuery {
    pub open spec fn words(self) -> Seq<char> {
        match self {
            BadQuery::Words => "q must contain 1–500 characters"@,
            BadQuery::Cursor => "invalid evidence cursor"@,
        }
    }

    pub fn message(&self) -> (r: &'static str)
        ensures
            r@ == self.words(),
    {
        match self {
            BadQuery::Words => "q must contain 1–500 characters",
            BadQuery::Cursor => "invalid evidence cursor",
        }
    }
}

// ---------------------------------------------------------------- matching

/// A Latin letter in lower case; any other character as it is.
pub open spec fn lower(c: char) -> char {
    if 'A' <= c <= 'Z' {
        (c as int + 32) as char
    } else {
        c
    }
}

pub open spec fn lowered(s: Seq<char>) -> Seq<char> {
    s.map_values(|c: char| lower(c))
}

/// The words stand in the text as they are, but for the case of Latin letters.
pub open spec fn mentions(content: Seq<char>, words: Seq<char>) -> bool {
    text::found(lowered(content), lowered(words)) is Some
}

/// The words are one to five hundred characters.
pub open spec fn words_fit(words: Seq<char>) -> bool {
    1 <= words.len() <= 500
}

/// The place in the list that a cursor names: `Some(None)` is the front, and `None` is no cursor at all.
pub open spec fn place(before: Option<Seq<char>>) -> Option<Option<(Seq<char>, Seq<char>)>> {
    match before {
        None => Some(None),
        Some(c) => if encode_utf8(c).len() > 512 {
            None
        } else {
            match json::json_strings(c) {
                Some(v) => if v.len() == 2 {
                    Some(Some((v[0], v[1])))
                } else {
                    None
                },
                None => None,
            }
        },
    }
}

/// A message further back than a place.
pub open spec fn further_back(place: Option<(Seq<char>, Seq<char>)>, e: EvidenceView) -> bool {
    match place {
        None => true,
        Some((at, id)) => text::text_before(e.created_at, at) || (e.created_at == at && text::text_before(e.id, id)),
    }
}

/// A message that a query is about.
pub open spec fn wanted(q: QueryView, place: Option<(Seq<char>, Seq<char>)>) -> spec_fn(EvidenceView) -> bool {
    |e: EvidenceView|
        {
            &&& mentions(e.content, text::trimmed(q.q))
            &&& q.bot_id matches Some(b) ==> e.bot_id == b
            &&& q.project_id matches Some(p) ==> e.project_id == p
            &&& further_back(place, e)
        }
}

/// Newest first; of two messages of the same time the one with the larger id.
pub open spec fn newest() -> spec_fn(EvidenceView, EvidenceView) -> bool {
    |a: EvidenceView, b: EvidenceView| further_back(Some((a.created_at, a.id)), b)
}

/// How many messages a page holds.
pub open spec fn page_size(limit: Option<i64>) -> int {
    match limit {
        None => 20,
        Some(n) => if n < 1 {
            1
        } else if n > 100 {
            100
        } else {
            n as int
        },
    }
}

fn low(c: char) -> (r: char)
    ensures
        r == lower(c),
{
    if 'A' <= c && c <= 'Z' {
        let u: u8 = c as u8;
        (u + 32) as char
    } else {
        c
    }
}

fn low_chars(s: &str) -> (r: Vec<char>)
    ensures
        r@ == lowered(s@),
{
    let v = text::chars_of(s);
    let mut out: Vec<char> = Vec::new();
    let mut i: usize = 0;
    while i < v.len()
        invariant
            i <= v.len(),
            v@ == s@,
            out@ == lowered(s@.take(i as int)),
        decreases v.len() - i,
    {
        let c: char = low(v[i]);
        let ghost was = out@;
        out.push(c);
        assert(out@ =~= lowered(s@.take(i as int + 1)));
        i += 1;
    }
    assert(s@.take(i as int) =~= s@);
    out
}

fn is_mentioned(content: &str, words: &Vec<char>) -> (r: bool)
    ensures
        r == (text::found(lowered(content@), words@) is Some),
{
    text::find_in(&low_chars(content), words).is_some()
}

fn read_place(before: &Option<String>) -> (r: Option<Option<(String, String)>>)
    ensures
        match r {
            None => place(text::opt(*before)) is None,
            Some(None) => place(text::opt(*before)) == Some(None::<(Seq<char>, Seq<char>)>),
            Some(Some(p)) => place(text::opt(*before)) == Some(Some((p.0@, p.1@))),
        },
{
    match before {
        None => Some(None),
        Some(c) => {
            if c.as_str().as_bytes().len() > 512 {
                return None;
            }
            match json::strings(c.as_str()) {
                None => None,
                Some(v) => {
                    if v.len() != 2 {
                        return None;
                    }
                    assert(text::texts(v@)[0] == v@[0]@ && text::texts(v@)[1] == v@[1]@);
                    Some(Some((v[0].clone(), v[1].clone())))
                },
            }
        },
    }
}

fn is_further_back(place: &Option<(String, String)>, e: &Evidence) -> (r: bool)
    ensures
        r == match *place {
            None => true,
            Some(p) => further_back(Some((p.0@, p.1@)), e@),
        },
{
    match place {
        None => true,
        Some(p) => text::precedes(e.created_at.as_str(), p.0.as_str()) || (text::same(e.created_at.as_str(), p.0.as_str())
            && text::precedes(e.id.as_str(), p.1.as_str())),
    }
}

// ---------------------------------------------------------------- pages

/// A message as it is shown: a long one is cut, and says so.
#[derive(Debug)]
pub struct Shown {
    pub message: Evidence,
    pub truncated: bool,
}

#[verifier::ext_equal]
pub struct ShownView {
    pub message: EvidenceView,
    pub truncated: bool,
}

impl View for Shown {
    type V = ShownView;

    open spec fn view(&self) -> ShownView {
        ShownView { message: self.message@, truncated: self.truncated }
    }
}

/// What is shown of a message.
pub open spec fn shown(e: EvidenceView) -> ShownView {
    ShownView {
        message: EvidenceView { content: table::limited(e.content, 16_000), ..e },
        truncated: e.content.len() > 16_000,
    }
}

fn show(e: &Evidence) -> (r: Shown)
    ensures
        r@ == shown(e@),
{
    let n: usize = e.content.as_str().unicode_len();
    if n > 16_000 {
        let head = e.content.as_str().substring_char(0, 16_000);
        assert(head@ =~= e.content@.take(16_000));
        let message = Evidence { content: head.to_owned(), ..e.copied() };
        Shown { message, truncated: true }
    } else {
        Shown { message: e.copied(), truncated: false }
    }
}

/// A page of results.
#[derive(Debug)]
pub struct Page {
    pub messages: Vec<Shown>,
    pub has_more: bool,
    pub next_cursor: Option<String>,
}

#[verifier::ext_equal]
pub struct PageView {
    pub messages: Seq<ShownView>,
    pub has_more: bool,
    pub next_cursor: Option<Seq<char>>,
}

impl View for Page {
    type V = PageView;

    open spec fn view(&self) -> PageView {
        PageView {
            messages: table::views(self.messages@),
            has_more: self.has_more,
            next_cursor: text::opt(self.next_cursor),
        }
    }
}

/// All messages that a query is about, from a place on, newest first.
pub open spec fn results(all: Seq<EvidenceView>, q: QueryView, place: Option<(Seq<char>, Seq<char>)>) -> Seq<EvidenceView> {
    table::ordered(all.filter(wanted(q, place)), newest())
}

/// The cursor that stands behind a message.
pub open spec fn cursor_behind(e: EvidenceView) -> Seq<char> {
    json::json_list(seq![e.created_at, e.id])
}

/// A page of results.
pub open spec fn page(all: Seq<EvidenceView>, q: QueryView, place: Option<(Seq<char>, Seq<char>)>) -> PageView {
    let rows = results(all, q, place);
    let n = page_size(q.limit);
    let has_more = rows.len() > n;
    PageView {
        messages: table::limited(rows, n).map_values(|e: EvidenceView| shown(e)),
        has_more,
        next_cursor: if has_more {
            Some(cursor_behind(rows[n - 1]))
        } else {
            None
        },
    }
}

fn show_all(rows: &Vec<Evidence>) -> (r: Vec<Shown>)
    ensures
        table::views(r@) == table::views(rows@).map_values(|e: EvidenceView| shown(e)),
{
    let mut out: Vec<Shown> = Vec::new();
    let mut i: usize = 0;
    while i < rows.len()
        invariant
            i <= rows.len(),
            out.len() == i,
            forall|j: int| 0 <= j < i ==> (#[trigger] out@[j])@ == shown(rows@[j]@),
        decreases rows.len() - i,
    {
        out.push(show(&rows[i]));
        i += 1;
    }
    assert(table::views(out@) =~= table::views(rows@).map_values(|e: EvidenceView| shown(e)));
    out
}

/// What is wrong with a query.
pub open spec fn fault_of(q: QueryView) -> Option<BadQuery> {
    if !words_fit(text::trimmed(q.q)) {
        Some(BadQuery::Words)
    } else if place(q.before) is None {
        Some(BadQuery::Cursor)
    } else {
        None
    }
}

/// The page of messages that a query asks for. The cursor of a page reads back as the place of its
/// last message, unless it is longer than a cursor may be.
pub fn query(all: &Vec<Evidence>, q: &EvidenceQuery) -> (res: Result<Page, BadQuery>)
    ensures
        fault_of(q@) matches Some(e) ==> res == Err::<Page, BadQuery>(e),
        fault_of(q@) is None ==> (place(q@.before) matches Some(from) ==> {
            &&& res matches Ok(p) && p@ == page(table::views(all@), q@, from)
            &&& res->Ok_0.next_cursor matches Some(c) ==> {
                let last = results(table::views(all@), q@, from)[page_size(q@.limit) - 1];
                &&& json::json_strings(c@) == Some(seq![last.created_at, last.id])
                &&& encode_utf8(c@).len() <= 512 ==> place(Some(c@)) == Some(Some((last.created_at, last.id)))
            }
        }),
{
    let words = text::trim(q.q.as_str());
    let n: usize = words.unicode_len();
    if n == 0 || n > 500 {
        return Err(BadQuery::Words);
    }
    let from = match read_place(&q.before) {
        None => {
            return Err(BadQuery::Cursor);
        },
        Some(p) => p,
    };
    let ghost here = place(q@.before)->0;
    let size: usize = match q.limit {
        None => 20,
        Some(l) => if l < 1 {
            1
        } else if l > 100 {
            100
        } else {
            l as usize
        },
    };
    let needle = low_chars(words);
    let rows = table::select(all, |e: &Evidence| -> (b: bool)
        ensures b == (wanted(q@, here))(e@)
        {
            is_mentioned(e.content.as_str(), &needle) && (match &q.bot_id {
                Some(x) => text::same(e.bot_id.as_str(), x.as_str()),
                None => true,
            }) && (match &q.project_id {
                Some(x) => text::same(e.project_id.as_str(), x.as_str()),
                None => true,
            }) && is_further_back(&from, e)
        }, Ghost(wanted(q@, here)));
    let sorted = table::arrange(rows, |a: &Evidence, b: &Evidence| -> (c: bool)
        ensures c == (newest())(a@, b@)
        {
            text::precedes(b.created_at.as_str(), a.created_at.as_str()) || (text::same(
                b.created_at.as_str(),
                a.created_at.as_str(),
            ) && text::precedes(b.id.as_str(), a.id.as_str()))
        }, Ghost(newest()));
    let ghost whole = table::views(sorted@);
    let has_more: bool = sorted.len() > size;
    let next_cursor = if has_more {
        let last = &sorted[size - 1];
        let pair = [last.created_at.clone(), last.id.clone()];
        assert(text::texts(pair@) =~= seq![whole[size - 1].created_at, whole[size - 1].id]);
        Some(json::list_text(&pair))
    } else {
        None
    };
    let kept = table::limit(sorted, size as i64);
    let messages = show_all(&kept);
    Ok(Page { messages, has_more, next_cursor })
}

// ---------------------------------------------------------------- JSON

pub open spec fn shown_members(v: ShownView) -> Seq<(Seq<char>, json::FieldView)> {
    seq![
        ("id"@, json::FieldView::Str(v.message.id)),
        ("bot_id"@, json::FieldView::Str(v.message.bot_id)),
        ("bot_name"@, json::FieldView::Str(v.message.bot_name)),
        ("project_id"@, json::FieldView::Str(v.message.project_id)),
        ("project_label"@, json::FieldView::Str(v.message.project_label)),
        ("bot_deleted"@, json::FieldView::Bool(v.message.bot_deleted)),
        ("turn_id"@, json::text_view(v.message.turn_id)),
        ("role"@, json::FieldView::Str(v.message.role)),
        ("content"@, json::FieldView::Str(v.message.content)),
        ("source"@, json::FieldView::Str(v.message.source)),
        ("incomplete"@, json::FieldView::Bool(v.message.incomplete)),
        ("created_at"@, json::FieldView::Str(v.message.created_at)),
        ("truncated"@, json::FieldView::Bool(v.truncated)),
    ]
}

pub open spec fn shown_texts(v: Seq<ShownView>) -> Seq<Seq<char>> {
    v.map_values(|s: ShownView| json::json_object(shown_members(s)))
}

pub open spec fn page_members(v: PageView) -> Seq<(Seq<char>, json::FieldView)> {
    seq![
        ("messages"@, json::FieldView::Json(json::json_array(shown_texts(v.messages)))),
        ("has_more"@, json::FieldView::Bool(v.has_more)),
        ("next_cursor"@, json::text_view(v.next_cursor)),
    ]
}

impl Shown {
    pub fn to_json(&self) -> (r: String)
        ensures
            r@ == json::json_object(shown_members(self@)),
    {
        let fields = [
            ("id", Field::Str(self.message.id.as_str())),
            ("bot_id", Field::Str(self.message.bot_id.as_str())),
            ("bot_name", Field::Str(self.message.bot_name.as_str())),
            ("project_id", Field::Str(self.message.project_id.as_str())),
            ("project_label", Field::Str(self.message.project_label.as_str())),
            ("bot_deleted", Field::Bool(self.message.bot_deleted)),
            ("turn_id", json::text_or_null(&self.message.turn_id)),
            ("role", Field::Str(self.message.role.as_str())),
            ("content", Field::Str(self.message.content.as_str())),
            ("source", Field::Str(self.message.source.as_str())),
            ("incomplete", Field::Bool(self.message.incomplete)),
            ("created_at", Field::Str(self.message.created_at.as_str())),
            ("truncated", Field::Bool(self.truncated)),
        ];
        assert(json::members(fields@) =~= shown_members(self@));
        json::object(&fields)
    }
}

impl Page {
    pub fn to_json(&self) -> (r: String)
        ensures
            r@ == json::json_object(page_members(self@)),
    {
        let mut items: Vec<String> = Vec::new();
        let mut i: usize = 0;
        while i < self.messages.len()
            invariant
                i <= self.messages.len(),
                items.len() == i,
                forall|j: int|
                    0 <= j < i ==> (#[trigger] items@[j])@ == json::json_object(shown_members(self.messages@[j]@)),
            decreases self.messages.len() - i,
        {
            items.push(self.messages[i].to_json());
            i += 1;
        }
        assert(text::texts(items@) =~= shown_texts(self@.messages));
        let messages = json::array(&items);
        let fields = [
            ("messages", Field::Json(messages.as_str())),
            ("has_more", Field::Bool(self.has_more)),
            ("next_cursor", json::text_or_null(&self.next_cursor)),
        ];
        assert(json::members(fields@) =~= page_members(self@));
        json::object(&fields)
    }
}

/// The answer to a query, as JSON.
pub fn search(all: &Vec<Evidence>, q: &EvidenceQuery) -> (res: Result<String, BadQuery>)
    ensures
        fault_of(q@) matches Some(e) ==> res == Err::<String, BadQuery>(e),
        fault_of(q@) is None ==> (place(q@.before) matches Some(from) ==> {
            res matches Ok(t) && t@ == json::json_object(page_members(page(table::views(all@), q@, from)))
        }),
{
    match query(all, q) {
        Ok(p) => Ok(p.to_json()),
        Err(e) => Err(e),
    }
}

// ---------------------------------------------------------------- laws

proof fn newest_is_a_ranking()
    ensures
        table::is_ranking(newest()),
{
    let before = newest();
    assert forall|a: EvidenceView, b: EvidenceView| #[trigger] before(a, b) implies !before(b, a) by {
        text::text_order_is_strict(a.created_at, b.created_at);
        text::text_order_is_strict(b.created_at, a.created_at);
        text::text_order_is_strict(a.id, b.id);
        text::text_order_is_strict(b.id, a.id);
    }
    assert forall|a: EvidenceView, b: EvidenceView, c: EvidenceView|
        !(#[trigger] before(a, b)) && !(#[trigger] before(b, c)) implies !before(a, c) by {
        text::text_order_is_total(a.created_at, b.created_at);
        text::text_order_is_total(b.created_at, c.created_at);
        text::text_order_is_total(a.id, b.id);
        text::text_order_is_total(b.id, c.id);
        text::text_order_is_strict(a.created_at, c.created_at);
        text::text_order_is_strict(c.created_at, a.created_at);
        text::text_order_is_strict(a.created_at, a.created_at);
        text::text_order_is_strict(a.id, c.id);
        text::text_order_is_strict(c.id, a.id);
        if text::text_before(a.created_at, b.created_at) && text::text_before(b.created_at, c.created_at) {
            text::text_order_is_transitive(a.created_at, b.created_at, c.created_at);
        }
        if text::text_before(a.id, b.id) && text::text_before(b.id, c.id) {
            text::text_order_is_transitive(a.id, b.id, c.id);
        }
    }
}

/// No two messages have one id.
pub open spec fn ids_are_unique(all: Seq<EvidenceView>) -> bool {
    forall|i: int, j: int| 0 <= i < j < all.len() ==> (#[trigger] all[i]).id != (#[trigger] all[j]).id
}

/// Results come newest first.
pub proof fn results_are_newest_first(all: Seq<EvidenceView>, q: QueryView, from: Option<(Seq<char>, Seq<char>)>)
    ensures
        table::in_order(results(all, q, from), newest()),
{
    newest_is_a_ranking();
    table::ordering_orders(all.filter(wanted(q, from)), newest());
}

/// No message of a page comes again on the page behind its cursor, also among messages of one time.
pub proof fn no_message_is_shown_twice(
    all: Seq<EvidenceView>,
    q: QueryView,
    from: Option<(Seq<char>, Seq<char>)>,
    i: int,
    j: int,
)
    requires
        0 <= i < page_size(q.limit) < results(all, q, from).len(),
        ({
            let last = results(all, q, from)[page_size(q.limit) - 1];
            0 <= j < results(all, q, Some((last.created_at, last.id))).len()
        }),
    ensures
        ({
            let last = results(all, q, from)[page_size(q.limit) - 1];
            results(all, q, from)[i] != results(all, q, Some((last.created_at, last.id)))[j]
        }),
{
    let rows = results(all, q, from);
    let k = page_size(q.limit) - 1;
    let last = rows[k];
    let behind = Some((last.created_at, last.id));
    let more = results(all, q, behind);
    results_are_newest_first(all, q, from);
    newest_is_a_ranking();
    result_is_wanted(all, q, behind, j);
    if rows[i] == more[j] {
        assert((newest())(rows[k], rows[i]));
        if i < k {
            assert(!(newest())(rows[k], rows[i]));
        } else {
            assert(!(newest())(rows[i], rows[k]));
        }
    }
}

proof fn result_is_wanted(all: Seq<EvidenceView>, q: QueryView, from: Option<(Seq<char>, Seq<char>)>, j: int)
    requires
        0 <= j < results(all, q, from).len(),
    ensures
        (wanted(q, from))(results(all, q, from)[j]),
        all.contains(results(all, q, from)[j]),
{
    let kept = all.filter(wanted(q, from));
    let rows = results(all, q, from);
    table::ordering_keeps_the_rows(kept, newest());
    broadcast use vstd::seq_lib::group_to_multiset_ensures;

    assert(rows.contains(rows[j]));
    assert(rows.to_multiset().count(rows[j]) > 0);
    assert(kept.contains(rows[j]));
    let x = choose|x: int| 0 <= x < kept.len() && kept[x] == rows[j];
    all.lemma_filter_pred(wanted(q, from), x);
    all.lemma_filter_contains_rev(wanted(q, from), rows[j]);
}

proof fn wanted_is_a_result(all: Seq<EvidenceView>, q: QueryView, from: Option<(Seq<char>, Seq<char>)>, e: EvidenceView)
    requires
        all.contains(e),
        (wanted(q, from))(e),
    ensures
        results(all, q, from).contains(e),
{
    let kept = all.filter(wanted(q, from));
    table::ordering_keeps_the_rows(kept, newest());
    broadcast use vstd::seq_lib::group_to_multiset_ensures;

    let x = choose|x: int| 0 <= x < all.len() && all[x] == e;
    all.lemma_filter_contains(wanted(q, from), x);
    assert(kept.contains(e));
    assert(kept.to_multiset().count(e) > 0);
}

/// No message is lost between two pages: what a query is about stands on the page, or behind its cursor.
pub proof fn no_message_is_skipped(all: Seq<EvidenceView>, q: QueryView, from: Option<(Seq<char>, Seq<char>)>, e: EvidenceView)
    requires
        ids_are_unique(all),
        all.contains(e),
        (wanted(q, from))(e),
        page_size(q.limit) < results(all, q, from).len(),
    ensures
        ({
            let rows = results(all, q, from);
            let last = rows[page_size(q.limit) - 1];
            rows.take(page_size(q.limit)).contains(e) || results(all, q, Some((last.created_at, last.id))).contains(e)
        }),
{
    let rows = results(all, q, from);
    let n = page_size(q.limit);
    let last = rows[n - 1];
    let behind = Some((last.created_at, last.id));
    wanted_is_a_result(all, q, from, e);
    results_are_newest_first(all, q, from);
    let j = choose|j: int| 0 <= j < rows.len() && rows[j] == e;
    if j < n {
        assert(rows.take(n)[j] == e);
    } else {
        result_is_wanted(all, q, from, n - 1);
        assert(!(newest())(rows[j], rows[n - 1]));
        text::text_order_is_total(e.created_at, last.created_at);
        text::text_order_is_total(e.id, last.id);
        if e.id == last.id {
            same_id_same_message(all, e, last);
            assert(rows.take(n)[n - 1] == e);
        } else {
            assert(further_back(behind, e));
            wanted_is_a_result(all, q, behind, e);
        }
    }
}

/// The place behind a message.
pub open spec fn behind(e: EvidenceView) -> Option<(Seq<char>, Seq<char>)> {
    Some((e.created_at, e.id))
}

/// The messages of so many pages, each read from the cursor of the one before, as they are shown.
pub open spec fn read_on(
    all: Seq<EvidenceView>,
    q: QueryView,
    from: Option<(Seq<char>, Seq<char>)>,
    pages: nat,
) -> Seq<ShownView>
    decreases pages,
{
    if pages == 0 {
        Seq::empty()
    } else {
        let one = page(all, q, from);
        if one.has_more {
            one.messages + read_on(all, q, behind(results(all, q, from)[page_size(q.limit) - 1]), (pages - 1) as nat)
        } else {
            one.messages
        }
    }
}

/// Every element stands before all those behind it.
pub open spec fn strictly_ordered(list: Seq<EvidenceView>) -> bool {
    forall|i: int, j: int| 0 <= i < j < list.len() ==> (newest())(#[trigger] list[i], #[trigger] list[j])
}

proof fn selecting_keeps_ids(all: Seq<EvidenceView>, keep: spec_fn(EvidenceView) -> bool)
    requires
        ids_are_unique(all),
    ensures
        all.filter(keep).no_duplicates(),
    decreases all.len(),
{
    reveal(Seq::filter);
    if all.len() > 0 {
        let head = all.drop_last();
        assert(ids_are_unique(head)) by {
            assert forall|i: int, j: int| 0 <= i < j < head.len() implies (#[trigger] head[i]).id != (
            #[trigger] head[j]).id by {
                assert(all[i].id != all[j].id);
            }
        }
        selecting_keeps_ids(head, keep);
        if keep(all.last()) {
            assert forall|i: int| 0 <= i < head.filter(keep).len() implies #[trigger] head.filter(keep)[i]
                != all.last() by {
                let e = head.filter(keep)[i];
                assert(head.filter(keep).contains(e));
                head.lemma_filter_contains_rev(keep, e);
                let k = choose|k: int| 0 <= k < head.len() && head[k] == e;
                assert(all[k].id != all[all.len() - 1].id);
            }
        }
    }
}

proof fn results_are_strict(all: Seq<EvidenceView>, q: QueryView, from: Option<(Seq<char>, Seq<char>)>)
    requires
        ids_are_unique(all),
    ensures
        strictly_ordered(results(all, q, from)),
        results(all, q, from).no_duplicates(),
{
    let kept = all.filter(wanted(q, from));
    let rows = results(all, q, from);
    selecting_keeps_ids(all, wanted(q, from));
    table::ordering_keeps_the_rows(kept, newest());
    kept.lemma_multiset_has_no_duplicates();
    rows.lemma_multiset_has_no_duplicates_conv();
    results_are_newest_first(all, q, from);
    assert forall|i: int, j: int| 0 <= i < j < rows.len() implies (newest())(#[trigger] rows[i], #[trigger] rows[j]) by {
        assert(!(newest())(rows[j], rows[i]));
        text::text_order_is_total(rows[i].created_at, rows[j].created_at);
        text::text_order_is_total(rows[i].id, rows[j].id);
        if rows[i].id == rows[j].id {
            result_is_wanted(all, q, from, i);
            result_is_wanted(all, q, from, j);
            same_id_same_message(all, rows[i], rows[j]);
            assert(rows[i] == rows[j]);
        }
    }
}

proof fn same_id_same_message(all: Seq<EvidenceView>, a: EvidenceView, b: EvidenceView)
    requires
        ids_are_unique(all),
        all.contains(a),
        all.contains(b),
        a.id == b.id,
    ensures
        a == b,
{
    let i = choose|i: int| 0 <= i < all.len() && all[i] == a;
    let j = choose|j: int| 0 <= j < all.len() && all[j] == b;
    if i < j {
        assert(all[i].id != all[j].id);
    } else if j < i {
        assert(all[j].id != all[i].id);
    }
}

proof fn one_order(a: Seq<EvidenceView>, b: Seq<EvidenceView>)
    requires
        strictly_ordered(a),
        strictly_ordered(b),
        forall|e: EvidenceView| #[trigger] a.contains(e) <==> b.contains(e),
    ensures
        a == b,
    decreases a.len(),
{
    newest_is_a_ranking();
    if a.len() == 0 {
        if b.len() > 0 {
            assert(b.contains(b[0]));
            assert(a.contains(b[0]));
        }
        assert(a =~= b);
    } else {
        assert(a.contains(a[0]));
        assert(b.contains(a[0]));
        assert(b.contains(b[0]));
        assert(a.contains(b[0]));
        let i = choose|i: int| 0 <= i < b.len() && b[i] == a[0];
        let j = choose|j: int| 0 <= j < a.len() && a[j] == b[0];
        if i > 0 && j > 0 {
            assert((newest())(b[0], b[i]));
            assert((newest())(a[0], a[j]));
        }
        assert(a[0] == b[0]);
        let x = a.skip(1);
        let y = b.skip(1);
        assert(strictly_ordered(x)) by {
            assert forall|i: int, j: int| 0 <= i < j < x.len() implies (newest())(#[trigger] x[i], #[trigger] x[j]) by {
                assert((newest())(a[i + 1], a[j + 1]));
            }
        }
        assert(strictly_ordered(y)) by {
            assert forall|i: int, j: int| 0 <= i < j < y.len() implies (newest())(#[trigger] y[i], #[trigger] y[j]) by {
                assert((newest())(b[i + 1], b[j + 1]));
            }
        }
        assert forall|e: EvidenceView| #[trigger] x.contains(e) <==> y.contains(e) by {
            if x.contains(e) {
                rest_of_the_order(a, b, e);
            }
            if y.contains(e) {
                rest_of_the_order(b, a, e);
            }
        }
        one_order(x, y);
        assert(a =~= seq![a[0]] + x);
        assert(b =~= seq![b[0]] + y);
    }
}

proof fn rest_of_the_order(a: Seq<EvidenceView>, b: Seq<EvidenceView>, e: EvidenceView)
    requires
        strictly_ordered(a),
        a.len() > 0,
        b.len() > 0,
        a[0] == b[0],
        forall|e: EvidenceView| #[trigger] a.contains(e) ==> b.contains(e),
        a.skip(1).contains(e),
    ensures
        b.skip(1).contains(e),
{
    newest_is_a_ranking();
    let i = choose|i: int| 0 <= i < a.skip(1).len() && a.skip(1)[i] == e;
    assert(a[i + 1] == e);
    assert((newest())(a[0], a[i + 1]));
    assert(a.contains(e));
    assert(b.contains(e));
    let j = choose|j: int| 0 <= j < b.len() && b[j] == e;
    if j == 0 {
        assert(!(newest())(e, e));
    }
    assert(b.skip(1)[j - 1] == e);
}

/// The page behind a cursor goes on where the page before it ended.
pub proof fn the_next_page_goes_on(all: Seq<EvidenceView>, q: QueryView, from: Option<(Seq<char>, Seq<char>)>)
    requires
        ids_are_unique(all),
        page(all, q, from).has_more,
    ensures
        ({
            let rows = results(all, q, from);
            let n = page_size(q.limit);
            results(all, q, behind(rows[n - 1])) == rows.skip(n)
        }),
{
    let rows = results(all, q, from);
    let n = page_size(q.limit);
    let last = rows[n - 1];
    let rest = rows.skip(n);
    let more = results(all, q, behind(last));
    results_are_strict(all, q, from);
    results_are_strict(all, q, behind(last));
    result_is_wanted(all, q, from, n - 1);
    newest_is_a_ranking();
    assert(strictly_ordered(rest)) by {
        assert forall|i: int, j: int| 0 <= i < j < rest.len() implies (newest())(#[trigger] rest[i], #[trigger] rest[j]) by {
            assert((newest())(rows[i + n], rows[j + n]));
        }
    }
    assert forall|e: EvidenceView| #[trigger] rest.contains(e) <==> more.contains(e) by {
        if rest.contains(e) {
            let i = choose|i: int| 0 <= i < rest.len() && rest[i] == e;
            assert(rows[i + n] == e);
            assert((newest())(rows[n - 1], rows[i + n]));
            result_is_wanted(all, q, from, i + n);
            wanted_is_a_result(all, q, behind(last), e);
        }
        if more.contains(e) {
            let i = choose|i: int| 0 <= i < more.len() && more[i] == e;
            result_is_wanted(all, q, behind(last), i);
            assert((newest())(last, e));
            further_back_from_further_back(from, last, e);
            wanted_is_a_result(all, q, from, e);
            let j = choose|j: int| 0 <= j < rows.len() && rows[j] == e;
            if j < n - 1 {
                assert((newest())(rows[j], rows[n - 1]));
            }
            assert(j >= n);
            assert(rest[j - n] == e);
        }
    }
    one_order(rest, more);
}

proof fn further_back_from_further_back(from: Option<(Seq<char>, Seq<char>)>, last: EvidenceView, e: EvidenceView)
    requires
        further_back(from, last),
        further_back(behind(last), e),
    ensures
        further_back(from, e),
{
    match from {
        None => {},
        Some((at, id)) => {
            if text::text_before(e.created_at, last.created_at) && text::text_before(last.created_at, at) {
                text::text_order_is_transitive(e.created_at, last.created_at, at);
            }
            if text::text_before(e.id, last.id) && text::text_before(last.id, id) {
                text::text_order_is_transitive(e.id, last.id, id);
            }
        },
    }
}

/// Read to the end, the pages together show every message that the query is about exactly once, whether
/// or not its bot is deleted, newest first, and nothing else. Each page is read from the place behind the
/// last message of the one before, which is what its cursor reads back as.
pub proof fn the_pages_are_the_whole(
    all: Seq<EvidenceView>,
    q: QueryView,
    from: Option<(Seq<char>, Seq<char>)>,
    pages: nat,
)
    requires
        ids_are_unique(all),
        pages >= results(all, q, from).len(),
        pages > 0,
    ensures
        read_on(all, q, from, pages) == results(all, q, from).map_values(|e: EvidenceView| shown(e)),
        results(all, q, from).no_duplicates(),
        strictly_ordered(results(all, q, from)),
        forall|e: EvidenceView| #[trigger]
            results(all, q, from).contains(e) <==> all.contains(e) && (wanted(q, from))(e),
    decreases pages,
{
    let rows = results(all, q, from);
    let n = page_size(q.limit);
    let f = |e: EvidenceView| shown(e);
    results_are_strict(all, q, from);
    assert forall|e: EvidenceView| #[trigger] rows.contains(e) <==> all.contains(e) && (wanted(q, from))(e) by {
        if rows.contains(e) {
            let i = choose|i: int| 0 <= i < rows.len() && rows[i] == e;
            result_is_wanted(all, q, from, i);
        } else if all.contains(e) && (wanted(q, from))(e) {
            wanted_is_a_result(all, q, from, e);
        }
    }
    if rows.len() > n {
        the_next_page_goes_on(all, q, from);
        the_pages_are_the_whole(all, q, behind(rows[n - 1]), (pages - 1) as nat);
        assert(rows.take(n).map_values(f) + rows.skip(n).map_values(f) =~= rows.map_values(f));
    } else {
        assert(page(all, q, from).messages =~= rows.map_values(f));
    }
}

/// A page holds as many messages as were asked for, at least one and at most a hundred, as far as there are
/// that many; it has a cursor exactly where there are more.
pub proof fn a_page_is_as_long_as_asked(all: Seq<EvidenceView>, q: QueryView, from: Option<(Seq<char>, Seq<char>)>)
    ensures
        1 <= page_size(q.limit) <= 100,
        page(all, q, from).messages.len() <= page_size(q.limit),
        page(all, q, from).has_more ==> page(all, q, from).messages.len() == page_size(q.limit),
        page(all, q, from).next_cursor is None <==> !page(all, q, from).has_more,
{
}

/// What a page shows of a message is its front, and a cut is never passed off as the whole.
pub proof fn a_cut_message_says_so(e: EvidenceView)
    ensures
        shown(e).message.content.is_prefix_of(e.content),
        shown(e).truncated == (shown(e).message.content != e.content),
        shown(e).message.incomplete == e.incomplete,
        shown(e).message.source == e.source,
{
    assert(shown(e).message.content =~= e.content.subrange(0, shown(e).message.content.len() as int));
}

/// A message is found when the words stand in it, whatever the case of Latin letters, and when it is of
/// the bot and the project that were named, if any was, and stands further back than the cursor.
pub proof fn what_a_query_is_about(q: QueryView, from: Option<(Seq<char>, Seq<char>)>, e: EvidenceView, k: int)
    ensures
        (wanted(q, from))(e) ==> {
            &&& q.bot_id is Some ==> e.bot_id == q.bot_id->0
            &&& q.project_id is Some ==> e.project_id == q.project_id->0
            &&& from is Some ==> text::text_before(e.created_at, (from->0).0) || (e.created_at == (from->0).0
                && text::text_before(e.id, (from->0).1))
        },
        ({
            let words = text::trimmed(q.q);
            let there = 0 <= k && k + words.len() <= e.content.len() && forall|i: int|
                0 <= i < words.len() ==> lower(#[trigger] e.content[k + i]) == lower(words[i]);
            let ours = (q.bot_id is None || e.bot_id == q.bot_id->0) && (q.project_id is None || e.project_id
                == q.project_id->0);
            let behind = from is None || text::text_before(e.created_at, (from->0).0) || (e.created_at == (from->0).0
                && text::text_before(e.id, (from->0).1));
            &&& there && ours && behind ==> (wanted(q, from))(e)
            &&& (wanted(q, from))(e) ==> exists|p: int|
                #![trigger lowered(e.content).subrange(p, p + words.len())]
                0 <= p && p + words.len() <= e.content.len() && lowered(e.content).subrange(p, p + words.len()) == lowered(
                    words,
                )
        }),
{
    let words = text::trimmed(q.q);
    let (hay, needle) = (lowered(e.content), lowered(words));
    if 0 <= k && k + words.len() <= e.content.len() && (forall|i: int|
        0 <= i < words.len() ==> lower(#[trigger] e.content[k + i]) == lower(words[i])) {
        assert forall|i: int| 0 <= i < needle.len() implies hay.subrange(k, k + needle.len())[i] == needle[i] by {
            assert(lower(e.content[k + i]) == lower(words[i]));
        }
        assert(hay.subrange(k, k + needle.len()) =~= needle);
        if text::found(hay, needle) is None {
            found_or_not(hay, needle, 0, k);
        }
    }
    if (wanted(q, from))(e) {
        found_somewhere(hay, needle, 0);
        let p = text::found(hay, needle)->0;
        assert(hay.subrange(p, p + words.len()) == needle);
    }
}

proof fn found_or_not(s: Seq<char>, part: Seq<char>, i: int, k: int)
    requires
        0 <= i <= k,
        k + part.len() <= s.len(),
        s.subrange(k, k + part.len()) == part,
    ensures
        text::found_from(s, part, i) is Some,
    decreases k - i,
{
    if i < k && !text::occurs_at(s, part, i) {
        found_or_not(s, part, i + 1, k);
    }
}

proof fn found_somewhere(s: Seq<char>, part: Seq<char>, i: int)
    requires
        text::found_from(s, part, i) is Some,
    ensures
        text::occurs_at(s, part, text::found_from(s, part, i)->0),
    decreases s.len() - i + 1,
{
    if !text::occurs_at(s, part, i) {
        found_somewhere(s, part, i + 1);
    }
}

/// Only the Latin capitals have another case, thirty-two places on.
pub proof fn only_latin_capitals_are_lowered(c: char)
    ensures
        'A' <= c <= 'Z' ==> lower(c) as int == c as int + 32,
        !('A' <= c <= 'Z') ==> lower(c) == c,
{
}

/// A page holds twenty messages unless another number is asked for, and one to a hundred in any case;
/// the words of a query are one to five hundred characters; a message is cut at sixteen thousand.
pub proof fn the_sizes_of_a_page(limit: i64, words: Seq<char>, e: EvidenceView)
    ensures
        page_size(None) == 20,
        1 <= limit <= 100 ==> page_size(Some(limit)) == limit,
        limit < 1 ==> page_size(Some(limit)) == 1,
        limit > 100 ==> page_size(Some(limit)) == 100,
        words_fit(words) <==> 1 <= words.len() && words.len() <= 500,
        shown(e).truncated <==> e.content.len() > 16_000,
        shown(e).message.content.len() <= 16_000,
        e.content.len() <= 16_000 ==> shown(e).message == e,
        shown(e).message == (EvidenceView { content: shown(e).message.content, ..e }),
{
}

/// A cursor is a list of a time and an id, in at most 512 bytes, and none at all is the front.
pub proof fn what_a_cursor_names(c: Seq<char>)
    ensures
        place(None) == Some(None::<(Seq<char>, Seq<char>)>),
        place(Some(c)) is Some <==> encode_utf8(c).len() <= 512 && json::json_strings(c) is Some && json::json_strings(c)->0.len()
            == 2,
        place(Some(c)) is Some ==> place(Some(c))->0 == Some((json::json_strings(c)->0[0], json::json_strings(c)->0[1])),
{
}

/// A page is the front of the results: the message at each place of it is what is shown of the result
/// there, and the cursor stands behind the last one.
pub proof fn a_page_is_the_front_of_the_results(all: Seq<EvidenceView>, q: QueryView, from: Option<(Seq<char>, Seq<char>)>, i: int)
    ensures
        ({
            let rows = results(all, q, from);
            let p = page(all, q, from);
            let n = page_size(q.limit);
            &&& p.has_more <==> rows.len() > n
            &&& p.messages.len() == if rows.len() > n {
                n
            } else {
                rows.len() as int
            }
            &&& 0 <= i < p.messages.len() ==> p.messages[i] == shown(rows[i])
            &&& p.has_more ==> p.next_cursor == Some(json::json_list(seq![rows[n - 1].created_at, rows[n - 1].id]))
            &&& !p.has_more ==> p.next_cursor is None
        }),
{
}

/// A message is shown with each of its parts under its own name, and with whether it was cut.
pub proof fn a_message_is_shown_whole(v: ShownView)
    ensures
        ({
            let m = shown_members(v);
            let text_or_null = |o: Option<Seq<char>>|
                match o {
                    Some(x) => json::FieldView::Str(x),
                    None => json::FieldView::Null,
                };
            &&& m.len() == 13
            &&& m.contains(("id"@, json::FieldView::Str(v.message.id)))
            &&& m.contains(("bot_id"@, json::FieldView::Str(v.message.bot_id)))
            &&& m.contains(("bot_name"@, json::FieldView::Str(v.message.bot_name)))
            &&& m.contains(("project_id"@, json::FieldView::Str(v.message.project_id)))
            &&& m.contains(("project_label"@, json::FieldView::Str(v.message.project_label)))
            &&& m.contains(("bot_deleted"@, json::FieldView::Bool(v.message.bot_deleted)))
            &&& m.contains(("turn_id"@, text_or_null(v.message.turn_id)))
            &&& m.contains(("role"@, json::FieldView::Str(v.message.role)))
            &&& m.contains(("content"@, json::FieldView::Str(v.message.content)))
            &&& m.contains(("source"@, json::FieldView::Str(v.message.source)))
            &&& m.contains(("incomplete"@, json::FieldView::Bool(v.message.incomplete)))
            &&& m.contains(("created_at"@, json::FieldView::Str(v.message.created_at)))
            &&& m.contains(("truncated"@, json::FieldView::Bool(v.truncated)))
        }),
{
    let m = shown_members(v);
    assert(m[0].0 == "id"@);
    assert(m[1].0 == "bot_id"@);
    assert(m[2].0 == "bot_name"@);
    assert(m[3].0 == "project_id"@);
    assert(m[4].0 == "project_label"@);
    assert(m[5].0 == "bot_deleted"@);
    assert(m[6].0 == "turn_id"@);
    assert(m[7].0 == "role"@);
    assert(m[8].0 == "content"@);
    assert(m[9].0 == "source"@);
    assert(m[10].0 == "incomplete"@);
    assert(m[11].0 == "created_at"@);
    assert(m[12].0 == "truncated"@);
}

/// A page is shown with its messages, whether there are more, and where they go on.
pub proof fn a_page_is_shown_with_what_follows(v: PageView)
    ensures
        ({
            let m = page_members(v);
            let text_or_null = |o: Option<Seq<char>>|
                match o {
                    Some(x) => json::FieldView::Str(x),
                    None => json::FieldView::Null,
                };
            &&& m.len() == 3
            &&& m.contains(("messages"@, json::FieldView::Json(json::json_array(shown_texts(v.messages)))))
            &&& m.contains(("has_more"@, json::FieldView::Bool(v.has_more)))
            &&& m.contains(("next_cursor"@, text_or_null(v.next_cursor)))
        }),
{
    let m = page_members(v);
    assert(m[0].0 == "messages"@);
    assert(m[1].0 == "has_more"@);
    assert(m[2].0 == "next_cursor"@);
}

/// A query is refused for its words first, which must be one to five hundred characters without the white space
/// around them, and then for its cursor, which must be two texts in at most five hundred and twelve bytes;
/// otherwise it is answered.
pub proof fn a_query_is_refused_for_its_words_or_its_cursor(q: QueryView)
    ensures
        ({
            let n = text::trimmed(q.q).len();
            let words = 1 <= n <= 500;
            let cursor = q.before is None || (encode_utf8(q.before->0).len() <= 512 && json::json_strings(q.before->0) is Some
                && json::json_strings(q.before->0)->0.len() == 2);
            &&& !words ==> fault_of(q) == Some(BadQuery::Words)
            &&& words && !cursor ==> fault_of(q) == Some(BadQuery::Cursor)
            &&& words && cursor ==> fault_of(q) is None
        }),
{
}

} // verus!
