use vstd::prelude::*;
use vstd::view::View as _;
use crate::api::{EditionItem, Homepage, HomepageSection, ItemContent};
use crate::app::{next_selected, prev_selected, App, LoadingState, ScrollView, View};
use crate::text::{pop_char, push_char};
use vstd::string::{StrSliceExecFns, StringExecFns};

verus! {

broadcast use vstd::string::group_string_axioms;

/// A key press, as the reader tells keys apart.
#[derive(Debug, Clone, Copy, PartialEq, Eq, Structural)]
pub enum Key {
    Char(char),
    Enter,
    Esc,
    Backspace,
    Up,
    Down,
    PageUp,
    PageDown,
    Other,
}

/// What the program has to do after a key press.
#[derive(Debug, Clone, PartialEq, Eq)]
pub enum Action {
    Nothing,
    /// Fetch the article with this slug.
    FetchArticle(String),
    /// Fetch the list of editions.
    FetchEditions,
    /// Search for articles containing this text.
    Search(String),
}

/// `a + b`, or `u16::MAX` when it does not fit.
pub open spec fn sat_add16(a: u16, b: u16) -> u16 {
    if a + b > u16::MAX {
        u16::MAX
    } else {
        (a + b) as u16
    }
}

/// `a - b`, or 0 when `b > a`.
pub open spec fn sat_sub_u16(a: u16, b: u16) -> u16 {
    if a > b {
        (a - b) as u16
    } else {
        0
    }
}

/// The furthest an article of `n` lines scrolls: 5 lines before its end
/// (the line count taken in 16 bits).
pub open spec fn article_scroll_max(n: int) -> u16 {
    sat_sub_u16(n as u16, 5)
}

/// `s` scrolled down by `by` lines, within an article of `n` lines.
pub open spec fn scroll_down(s: u16, by: u16, n: int) -> u16 {
    let t = sat_add16(s, by);
    let m = article_scroll_max(n);
    if t < m {
        t
    } else {
        m
    }
}

/// A view after moving its selection down.
pub open spec fn moved_down(v: ScrollView, w: ScrollView) -> bool {
    w.selected == next_selected(v.selected, v.item_count) && w.scroll == v.scroll && w.item_count
        == v.item_count && w.item_offsets@ == v.item_offsets@ && w.item_heights@
        == v.item_heights@
}

/// A view after moving its selection up.
pub open spec fn moved_up(v: ScrollView, w: ScrollView) -> bool {
    w.selected == prev_selected(v.selected) && w.scroll == v.scroll && w.item_count
        == v.item_count && w.item_offsets@ == v.item_offsets@ && w.item_heights@
        == v.item_heights@
}

/// The key is one of those that move down.
pub open spec fn is_down(k: Key) -> bool {
    k == Key::Char('j') || k == Key::Down
}

/// The key is one of those that move up.
pub open spec fn is_up(k: Key) -> bool {
    k == Key::Char('k') || k == Key::Up
}

/// The key is one of those that go back.
pub open spec fn is_back(k: Key) -> bool {
    k == Key::Esc || k == Key::Backspace
}

/// A view whose selection can move down without overflow.
pub open spec fn can_move_down(v: ScrollView) -> bool {
    v.item_count > 0 ==> v.selected < usize::MAX
}

/// The key can be handled without overflow: moving down a list whose
/// selection is at the largest index would overflow.
pub open spec fn key_ok(a: App, k: Key) -> bool {
    (!a.search_active && is_down(k)) ==> match a.view {
        View::Home => can_move_down(a.home_view),
        View::Search => can_move_down(a.search_view),
        View::EditionsList => can_move_down(a.editions_view),
        _ => true,
    }
}

/// The slug of search result `i`, if it has one.
pub open spec fn result_slug(results: Seq<EditionItem>, i: usize) -> Option<String> {
    if i < results.len() {
        results[i as int].slug
    } else {
        None
    }
}

impl App {
    /// Handles a key press while the search input is open.
    fn handle_search_input(&mut self, key: Key) -> (r: Action)
        requires
            old(self).search_active,
        ensures
            match key {
                Key::Esc => r == Action::Nothing && *final(self) == App {
                    search_active: false,
                    ..*old(self)
                },
                Key::Enter => if old(self).search_query@.len() > 0 {
                    r == Action::Search(old(self).search_query) && *final(self) == App {
                        search_active: false,
                        view: View::Search,
                        search_results: LoadingState::Loading,
                        ..*old(self)
                    }
                } else {
                    r == Action::Nothing && *final(self) == App {
                        search_active: false,
                        ..*old(self)
                    }
                },
                Key::Backspace => r == Action::Nothing && final(self).search_query@ == (if old(
                    self,
                ).search_query@.len() > 0 {
                    old(self).search_query@.drop_last()
                } else {
                    old(self).search_query@
                }) && *final(self) == App { search_query: final(self).search_query, ..*old(self) },
                Key::Char(c) => r == Action::Nothing && final(self).search_query@ == old(
                    self,
                ).search_query@.push(c) && *final(self) == App {
                    search_query: final(self).search_query,
                    ..*old(self)
                },
                _ => r == Action::Nothing && *final(self) == *old(self),
            },
    {
        match key {
            Key::Esc => {
                self.search_active = false;
                Action::Nothing
            },
            Key::Enter => {
                self.search_active = false;
                if self.search_query.as_str().unicode_len() > 0 {
                    self.view = View::Search;
                    self.search_results = LoadingState::Loading;
                    Action::Search(self.search_query.clone())
                } else {
                    Action::Nothing
                }
            },
            Key::Backspace => {
                pop_char(&mut self.search_query);
                Action::Nothing
            },
            Key::Char(c) => {
                push_char(&mut self.search_query, c);
                Action::Nothing
            },
            _ => Action::Nothing,
        }
    }
}

/// What a key does while the search input is open.
pub open spec fn search_input_effect(a: App, b: App, k: Key, r: Action) -> bool {
    match k {
        Key::Esc => r == Action::Nothing && b == App { search_active: false, ..a },
        Key::Enter => if a.search_query@.len() > 0 {
            r == Action::Search(a.search_query) && b == App {
                search_active: false,
                view: View::Search,
                search_results: LoadingState::Loading,
                ..a
            }
        } else {
            r == Action::Nothing && b == App { search_active: false, ..a }
        },
        Key::Backspace => r == Action::Nothing && b.search_query@ == (if a.search_query@.len() > 0 {
            a.search_query@.drop_last()
        } else {
            a.search_query@
        }) && b == App { search_query: b.search_query, ..a },
        Key::Char(c) => r == Action::Nothing && b.search_query@ == a.search_query@.push(c) && b
            == App { search_query: b.search_query, ..a },
        _ => r == Action::Nothing && b == a,
    }
}

/// What the global keys do: `q` asks to quit; `/` opens an empty search input.
pub open spec fn global_effect(a: App, b: App, k: Key) -> bool {
    if k == Key::Char('q') {
        b == App { should_quit: true, ..a }
    } else if k == Key::Char('/') {
        b.search_query@.len() == 0 && b == App {
            search_active: true,
            search_query: b.search_query,
            ..a
        }
    } else {
        b == a
    }
}

/// What a key does on the home screen.
pub open spec fn home_effect(a: App, b: App, k: Key, r: Action) -> bool {
    if is_down(k) {
        r == Action::Nothing && moved_down(a.home_view, b.home_view) && b == App {
            home_view: b.home_view,
            ..a
        }
    } else if is_up(k) {
        r == Action::Nothing && moved_up(a.home_view, b.home_view) && b == App {
            home_view: b.home_view,
            ..a
        }
    } else if k == Key::Enter {
        let slug = if a.home_view.selected < a.home_slugs@.len() {
            a.home_slugs@[a.home_view.selected as int]
        } else {
            None
        };
        match slug {
            Some(s) => r == Action::FetchArticle(s) && b == App {
                view: View::Article,
                article: LoadingState::Loading,
                article_scroll: 0,
                ..a
            },
            None => r == Action::Nothing && b == a,
        }
    } else if k == Key::Char('e') {
        r == Action::FetchEditions && b == App {
            view: View::EditionsList,
            editions: LoadingState::Loading,
            ..a
        }
    } else {
        r == Action::Nothing && b == a
    }
}

/// What a key does on the article screen, in a terminal `height` lines high.
pub open spec fn article_effect(a: App, b: App, k: Key, height: u16, r: Action) -> bool {
    let n = a.article_lines@.len() as int;
    let page = sat_sub_u16(height, 6);
    r == Action::Nothing && if is_down(k) {
        b == App { article_scroll: scroll_down(a.article_scroll, 3, n), ..a }
    } else if is_up(k) {
        b == App { article_scroll: sat_sub_u16(a.article_scroll, 3), ..a }
    } else if k == Key::Char(' ') || k == Key::PageDown {
        b == App { article_scroll: scroll_down(a.article_scroll, page, n), ..a }
    } else if k == Key::PageUp {
        b == App { article_scroll: sat_sub_u16(a.article_scroll, page), ..a }
    } else if is_back(k) {
        b == App { view: View::Home, ..a }
    } else {
        b == a
    }
}

/// What a key does on the search results screen.
pub open spec fn search_effect(a: App, b: App, k: Key, r: Action) -> bool {
    if is_down(k) {
        r == Action::Nothing && moved_down(a.search_view, b.search_view) && b == App {
            search_view: b.search_view,
            ..a
        }
    } else if is_up(k) {
        r == Action::Nothing && moved_up(a.search_view, b.search_view) && b == App {
            search_view: b.search_view,
            ..a
        }
    } else if k == Key::Enter {
        let slug = match a.search_results {
            LoadingState::Loaded(results) => result_slug(results@, a.search_view.selected),
            _ => None,
        };
        match slug {
            Some(s) => r == Action::FetchArticle(s) && b == App {
                view: View::Article,
                article: LoadingState::Loading,
                article_scroll: 0,
                ..a
            },
            None => r == Action::Nothing && b == a,
        }
    } else if is_back(k) {
        r == Action::Nothing && b == App { view: View::Home, ..a }
    } else {
        r == Action::Nothing && b == a
    }
}

/// What a key does on the list of editions.
pub open spec fn editions_effect(a: App, b: App, k: Key, r: Action) -> bool {
    r == Action::Nothing && if is_down(k) {
        moved_down(a.editions_view, b.editions_view) && b == App {
            editions_view: b.editions_view,
            ..a
        }
    } else if is_up(k) {
        moved_up(a.editions_view, b.editions_view) && b == App {
            editions_view: b.editions_view,
            ..a
        }
    } else if k == Key::Enter || is_back(k) {
        b == App { view: View::Home, ..a }
    } else {
        b == a
    }
}

/// What a key does on the screen `a` shows.
pub open spec fn view_effect(a: App, b: App, k: Key, height: u16, r: Action) -> bool {
    match a.view {
        View::Home => home_effect(a, b, k, r),
        View::Article => article_effect(a, b, k, height, r),
        View::Search => search_effect(a, b, k, r),
        View::EditionsList => editions_effect(a, b, k, r),
        _ => r == Action::Nothing && b == a,
    }
}

impl App {
    fn handle_home_key(&mut self, key: Key) -> (r: Action)
        requires
            old(self).view == View::Home,
            is_down(key) ==> can_move_down(old(self).home_view),
        ensures
            home_effect(*old(self), *final(self), key, r),
    {
        if key == Key::Char('j') || key == Key::Down {
            self.home_view.next();
            Action::Nothing
        } else if key == Key::Char('k') || key == Key::Up {
            self.home_view.prev();
            Action::Nothing
        } else if key == Key::Enter {
            match self.selected_slug() {
                Some(slug) => {
                    self.view = View::Article;
                    self.article = LoadingState::Loading;
                    self.article_scroll = 0;
                    Action::FetchArticle(slug)
                },
                None => Action::Nothing,
            }
        } else if key == Key::Char('e') {
            self.view = View::EditionsList;
            self.editions = LoadingState::Loading;
            Action::FetchEditions
        } else {
            Action::Nothing
        }
    }

    fn handle_article_key(&mut self, key: Key, height: u16) -> (r: Action)
        requires
            old(self).view == View::Article,
        ensures
            article_effect(*old(self), *final(self), key, height, r),
    {
        let n = self.article_lines.len() as u16;
        let max: u16 = if n > 5 {
            n - 5
        } else {
            0
        };
        let page: u16 = if height > 6 {
            height - 6
        } else {
            0
        };
        if key == Key::Char('j') || key == Key::Down {
            let t: u16 = if self.article_scroll as u32 + 3 > 65535 {
                65535
            } else {
                self.article_scroll + 3
            };
            self.article_scroll = if t < max {
                t
            } else {
                max
            };
        } else if key == Key::Char('k') || key == Key::Up {
            self.article_scroll = if self.article_scroll > 3 {
                self.article_scroll - 3
            } else {
                0
            };
        } else if key == Key::Char(' ') || key == Key::PageDown {
            let t: u16 = if self.article_scroll as u32 + page as u32 > 65535 {
                65535
            } else {
                self.article_scroll + page
            };
            self.article_scroll = if t < max {
                t
            } else {
                max
            };
        } else if key == Key::PageUp {
            self.article_scroll = if self.article_scroll > page {
                self.article_scroll - page
            } else {
                0
            };
        } else if key == Key::Esc || key == Key::Backspace {
            self.view = View::Home;
        }
        Action::Nothing
    }

    fn handle_search_key(&mut self, key: Key) -> (r: Action)
        requires
            old(self).view == View::Search,
            is_down(key) ==> can_move_down(old(self).search_view),
        ensures
            search_effect(*old(self), *final(self), key, r),
    {
        if key == Key::Char('j') || key == Key::Down {
            self.search_view.next();
            Action::Nothing
        } else if key == Key::Char('k') || key == Key::Up {
            self.search_view.prev();
            Action::Nothing
        } else if key == Key::Enter {
            let slug = match &self.search_results {
                LoadingState::Loaded(results) => {
                    let idx = self.search_view.selected;
                    if idx < results.len() {
                        crate::app::clone_opt(&results[idx].slug)
                    } else {
                        None
                    }
                },
                _ => None,
            };
            match slug {
                Some(s) => {
                    self.view = View::Article;
                    self.article = LoadingState::Loading;
                    self.article_scroll = 0;
                    Action::FetchArticle(s)
                },
                None => Action::Nothing,
            }
        } else if key == Key::Esc || key == Key::Backspace {
            self.view = View::Home;
            Action::Nothing
        } else {
            Action::Nothing
        }
    }

    fn handle_editions_key(&mut self, key: Key) -> (r: Action)
        requires
            old(self).view == View::EditionsList,
            is_down(key) ==> can_move_down(old(self).editions_view),
        ensures
            editions_effect(*old(self), *final(self), key, r),
    {
        if key == Key::Char('j') || key == Key::Down {
            self.editions_view.next();
        } else if key == Key::Char('k') || key == Key::Up {
            self.editions_view.prev();
        } else if key == Key::Enter || key == Key::Esc || key == Key::Backspace {
            self.view = View::Home;
        }
        Action::Nothing
    }

    /// Handles a key press in a terminal `height` lines high and says what
    /// the program has to fetch. With the search input open, keys edit the
    /// query; otherwise `q` asks to quit, `/` opens the search input, and the
    /// screen shown handles the key.
    pub fn handle_key(&mut self, key: Key, height: u16) -> (r: Action)
        requires
            key_ok(*old(self), key),
        ensures
            old(self).search_active ==> search_input_effect(*old(self), *final(self), key, r),
            !old(self).search_active ==> exists|m: App|
                global_effect(*old(self), m, key) && view_effect(m, *final(self), key, height, r),
    {
        if self.search_active {
            return self.handle_search_input(key);
        }
        let ghost a = *self;
        if key == Key::Char('q') {
            self.should_quit = true;
        } else if key == Key::Char('/') {
            self.search_active = true;
            self.search_query = String::new();
        }
        let ghost m = *self;
        assert(global_effect(a, m, key));
        match self.view {
            View::Home => self.handle_home_key(key),
            View::Article => self.handle_article_key(key, height),
            View::Search => self.handle_search_key(key),
            View::EditionsList => self.handle_editions_key(key),
            _ => Action::Nothing,
        }
    }
}

/// The image addresses of some items, in order (items without one are skipped).
pub open spec fn image_urls(items: Seq<EditionItem>) -> Seq<Seq<char>>
    decreases items.len(),
{
    if items.len() == 0 {
        seq![]
    } else {
        image_urls(items.drop_last()) + match items.last().content.spec_image_url() {
            Some(u) => seq![u],
            None => seq![],
        }
    }
}

/// The images to fetch for the homepage: those of hero and highlight items, in order.
pub open spec fn home_images(sections: Seq<HomepageSection>) -> Seq<Seq<char>>
    decreases sections.len(),
{
    if sections.len() == 0 {
        seq![]
    } else {
        home_images(sections.drop_last()) + match sections.last() {
            HomepageSection::Hero { items } => image_urls(items@),
            HomepageSection::Highlight { item } => image_urls(seq![item]),
            _ => seq![],
        }
    }
}

/// The texts of a list of strings.
pub open spec fn url_texts(v: Seq<String>) -> Seq<Seq<char>> {
    v.map_values(|t: String| t@)
}

fn push_image_url(out: &mut Vec<String>, item: &EditionItem)
    ensures
        url_texts(final(out)@) == url_texts(old(out)@) + match item.content.spec_image_url() {
            Some(u) => seq![u],
            None => seq![],
        },
{
    let ghost start = url_texts(out@);
    match item.content.image_url() {
        Some(u) => {
            out.push(String::from_str(u));
            assert(url_texts(out@) =~= start + seq![u@]);
        },
        None => {
            assert(url_texts(out@) =~= start + seq![]);
        },
    }
}

/// The addresses of the images of the homepage's hero and highlight items.
pub fn homepage_images(homepage: &Homepage) -> (r: Vec<String>)
    ensures
        url_texts(r@) == home_images(homepage.sections@),
{
    let ghost secs = homepage.sections@;
    let mut out: Vec<String> = Vec::new();
    let mut k: usize = 0;
    while k < homepage.sections.len()
        invariant
            secs == homepage.sections@,
            k <= secs.len(),
            url_texts(out@) == home_images(secs.take(k as int)),
        decreases secs.len() - k,
    {
        assert(secs.take(k + 1).drop_last() =~= secs.take(k as int));
        let ghost before = url_texts(out@);
        match &homepage.sections[k] {
            HomepageSection::Hero { items } => {
                let mut j: usize = 0;
                while j < items.len()
                    invariant
                        j <= items.len(),
                        url_texts(out@) == before + image_urls(items@.take(j as int)),
                    decreases items.len() - j,
                {
                    assert(items@.take(j + 1).drop_last() =~= items@.take(j as int));
                    push_image_url(&mut out, &items[j]);
                    j += 1;
                    assert(url_texts(out@) =~= before + image_urls(items@.take(j as int)));
                }
                assert(items@.take(j as int) =~= items@);
            },
            HomepageSection::Highlight { item } => {
                push_image_url(&mut out, item);
                assert(seq![*item].drop_last() =~= Seq::<EditionItem>::empty());
                assert(image_urls(Seq::<EditionItem>::empty()) == Seq::<Seq<char>>::empty());
                assert(seq![*item].last() == *item);
                assert(image_urls(seq![*item]) =~= image_urls(seq![*item].drop_last()) + match item.content.spec_image_url() {
                    Some(u) => seq![u],
                    None => seq![],
                });
                assert(url_texts(out@) =~= before + image_urls(seq![*item]));
            },
            _ => {},
        }
        k += 1;
        assert(url_texts(out@) =~= home_images(secs.take(k as int)));
    }
    assert(secs.take(k as int) =~= secs);
    out
}

impl App {
    /// Takes the homepage (or the error in fetching it), lists its items and
    /// marks it for drawing. Returns the images to fetch: those of its hero
    /// and highlight items.
    pub fn on_homepage_loaded(&mut self, result: Result<Homepage, String>) -> (r: Vec<String>)
        ensures
            match result {
                Ok(hp) => {
                    &&& final(self).home_slugs@ == crate::app::home_slugs_of(hp.sections@)
                    &&& *final(self) == (App {
                        homepage: LoadingState::Loaded(hp),
                        home_slugs: final(self).home_slugs,
                        home_view: ScrollView {
                            item_count: final(self).home_slugs@.len() as usize,
                            selected: 0,
                            scroll: 0,
                            ..old(self).home_view
                        },
                        home_dirty: true,
                        ..*old(self)
                    })
                    &&& url_texts(r@) == home_images(hp.sections@)
                },
                Err(e) => {
                    &&& *final(self) == (App {
                        homepage: LoadingState::<Homepage>::Error(e),
                        home_dirty: true,
                        ..*old(self)
                    })
                    &&& r@.len() == 0
                },
            },
    {
        let urls = match &result {
            Ok(hp) => homepage_images(hp),
            Err(_) => Vec::new(),
        };
        self.homepage = match result {
            Ok(hp) => LoadingState::Loaded(hp),
            Err(e) => LoadingState::Error(e),
        };
        self.rebuild_home_items();
        self.home_dirty = true;
        urls
    }

    /// Takes the article (or the error in fetching it).
    pub fn on_article_loaded(&mut self, result: Result<EditionItem, String>)
        ensures
            *final(self) == (App {
                article: match result {
                    Ok(item) => LoadingState::Loaded(item),
                    Err(e) => LoadingState::Error(e),
                },
                ..*old(self)
            }),
    {
        self.article = match result {
            Ok(item) => LoadingState::Loaded(item),
            Err(e) => LoadingState::Error(e),
        };
    }

    /// Takes the search results (or the error) and selects the first.
    pub fn on_search_results(&mut self, result: Result<Vec<EditionItem>, String>)
        ensures
            *final(self) == (App {
                search_results: match result {
                    Ok(items) => LoadingState::Loaded(items),
                    Err(e) => LoadingState::Error(e),
                },
                search_view: ScrollView { selected: 0, scroll: 0, ..old(self).search_view },
                ..*old(self)
            }),
    {
        self.search_results = match result {
            Ok(items) => LoadingState::Loaded(items),
            Err(e) => LoadingState::Error(e),
        };
        self.search_view.selected = 0;
        self.search_view.scroll = 0;
    }

    /// Takes the list of editions (or the error) and selects the first.
    pub fn on_editions_loaded(&mut self, result: Result<Vec<crate::api::Edition>, String>)
        ensures
            *final(self) == (App {
                editions: match result {
                    Ok(eds) => LoadingState::Loaded(eds),
                    Err(e) => LoadingState::Error(e),
                },
                editions_view: ScrollView { selected: 0, scroll: 0, ..old(self).editions_view },
                ..*old(self)
            }),
    {
        self.editions = match result {
            Ok(eds) => LoadingState::Loaded(eds),
            Err(e) => LoadingState::Error(e),
        };
        self.editions_view.selected = 0;
        self.editions_view.scroll = 0;
    }
}

/// Typing a character into the search input and then pressing Backspace
/// leaves the query as it was.
pub proof fn law_backspace_undoes_typing(a: App, b: App, d: App, c: char, r1: Action, r2: Action)
    requires
        search_input_effect(a, b, Key::Char(c), r1),
        search_input_effect(b, d, Key::Backspace, r2),
    ensures
        d.search_query@ == a.search_query@,
        d == (App { search_query: d.search_query, ..a }),
{
    assert(b.search_query@.drop_last() =~= a.search_query@);
}

/// Outside the search input, `q` asks to quit, whatever the screen.
pub proof fn law_q_quits(a: App, m: App, b: App, height: u16, r: Action)
    requires
        global_effect(a, m, Key::Char('q')),
        view_effect(m, b, Key::Char('q'), height, r),
    ensures
        b.should_quit,
        r == Action::Nothing,
{
}

/// Outside the search input, `/` opens an empty search input, whatever the screen.
pub proof fn law_slash_opens_empty_search(a: App, m: App, b: App, height: u16, r: Action)
    requires
        global_effect(a, m, Key::Char('/')),
        view_effect(m, b, Key::Char('/'), height, r),
    ensures
        b.search_active,
        b.search_query@.len() == 0,
        b.view == a.view,
        r == Action::Nothing,
{
}

/// On the article screen no key scrolls past the end: a scroll within the
/// furthest position stays within it.
pub proof fn law_article_scroll_stays_in_range(a: App, b: App, k: Key, height: u16, r: Action)
    requires
        article_effect(a, b, k, height, r),
        a.article_scroll <= article_scroll_max(a.article_lines@.len() as int),
    ensures
        b.article_scroll <= article_scroll_max(b.article_lines@.len() as int),
{
}

/// Only Enter on an item with a slug asks for an article, and the slug asked
/// for is the selected item's.
pub proof fn law_home_enter_fetches_selected(a: App, b: App, r: Action, slug: String)
    requires
        home_effect(a, b, Key::Enter, r),
        r == Action::FetchArticle(slug),
    ensures
        a.home_view.selected < a.home_slugs@.len(),
        a.home_slugs@[a.home_view.selected as int] == Some(slug),
        b.view == View::Article,
        b.article == LoadingState::<EditionItem>::Loading,
        b.article_scroll == 0,
{
}

/// On the article screen, outside the search input, the space bar does what
/// PageDown does.
pub proof fn law_space_pages_down(
    a: App,
    m1: App,
    b1: App,
    m2: App,
    b2: App,
    height: u16,
    r1: Action,
    r2: Action,
)
    requires
        a.view == View::Article,
        global_effect(a, m1, Key::Char(' ')),
        view_effect(m1, b1, Key::Char(' '), height, r1),
        global_effect(a, m2, Key::PageDown),
        view_effect(m2, b2, Key::PageDown, height, r2),
    ensures
        b1 == b2,
        r1 == r2,
{
}

/// On the article screen, outside the search input, the space bar and
/// PageDown scroll down by one page (the terminal's height less 6 lines),
/// but not past the furthest position, 5 lines before the article's end.
pub proof fn law_page_down_scrolls_one_page(a: App, m: App, b: App, k: Key, height: u16, r: Action)
    requires
        a.view == View::Article,
        k == Key::Char(' ') || k == Key::PageDown,
        global_effect(a, m, k),
        view_effect(m, b, k, height, r),
        height >= 6,
        5 <= a.article_lines@.len() <= u16::MAX,
        a.article_scroll <= a.article_lines@.len() - 5,
    ensures
        r == Action::Nothing,
        b == (App { article_scroll: b.article_scroll, ..a }),
        a.article_scroll + height - 6 <= a.article_lines@.len() - 5 ==> b.article_scroll
            == a.article_scroll + height - 6,
        a.article_scroll + height - 6 > a.article_lines@.len() - 5 ==> b.article_scroll
            == a.article_lines@.len() - 5,
{
    assert((a.article_lines@.len() as u16) as int == a.article_lines@.len());
}

} // verus!
