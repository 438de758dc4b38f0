//! The store: its catalogue of applications, and how that is refreshed.

use vstd::prelude::*;
use vstd::string::*;

use crate::agent::{copy_env, EnvVar};
use crate::outside::{json_pairs, json_pairs_of, pairs_view};
use crate::paths::{copy_texts, texts};
use crate::table::{lists_keys, Table};
use crate::text::{copy_opt, opt_text, trim_end_matches, trimmed_end};

verus! {

/// The description of an application in the store.
#[derive(Debug)]
pub struct AppManifest {
    pub id: String,
    pub name: String,
    pub version: String,
    /// Where the program is downloaded from.
    pub download_url: String,
    /// The name of the program.
    pub binary_name: String,
    /// The checksum of what is downloaded.
    pub sha256: Option<String>,
    /// The directory that the program runs in, with variables to fill in.
    pub working_dir: String,
    /// The arguments of the program.
    pub args: Vec<String>,
    /// Environment variables.
    pub env: Vec<EnvVar>,
    pub port: u16,
    /// The path of the health check, where one is named.
    pub health_url: Option<String>,
    /// The whole description as it came.
    pub document: String,
}

/// The contents of the description of an application.
#[verifier::ext_equal]
pub struct AppView {
    pub id: Seq<char>,
    pub name: Seq<char>,
    pub version: Seq<char>,
    pub download_url: Seq<char>,
    pub binary_name: Seq<char>,
    pub sha256: Option<Seq<char>>,
    pub working_dir: Seq<char>,
    pub args: Seq<Seq<char>>,
    pub env: Seq<EnvVar>,
    pub port: u16,
    pub health_url: Option<Seq<char>>,
    pub document: Seq<char>,
}

impl View for AppManifest {
    type V = AppView;

    open spec fn view(&self) -> AppView {
        AppView {
            id: self.id@,
            name: self.name@,
            version: self.version@,
            download_url: self.download_url@,
            binary_name: self.binary_name@,
            sha256: opt_text(self.sha256),
            working_dir: self.working_dir@,
            args: texts(self.args@),
            env: self.env@,
            port: self.port,
            health_url: opt_text(self.health_url),
            document: self.document@,
        }
    }
}

impl AppManifest {
    /// A copy of the description.
    pub fn copy(&self) -> (r: AppManifest)
        ensures
            r@ == self@,
    {
        AppManifest {
            id: self.id.clone(),
            name: self.name.clone(),
            version: self.version.clone(),
            download_url: self.download_url.clone(),
            binary_name: self.binary_name.clone(),
            sha256: copy_opt(&self.sha256),
            working_dir: self.working_dir.clone(),
            args: copy_texts(&self.args),
            env: copy_env(&self.env),
            port: self.port,
            health_url: copy_opt(&self.health_url),
            document: self.document.clone(),
        }
    }
}

/// A source of the store.
#[derive(Debug)]
pub struct StoreSource {
    pub id: String,
    pub name: String,
    pub url: String,
    pub enabled: bool,
}

/// The contents of a source.
#[verifier::ext_equal]
pub struct SourceView {
    pub id: Seq<char>,
    pub name: Seq<char>,
    pub url: Seq<char>,
    pub enabled: bool,
}

impl View for StoreSource {
    type V = SourceView;

    open spec fn view(&self) -> SourceView {
        SourceView { id: self.id@, name: self.name@, url: self.url@, enabled: self.enabled }
    }
}

/// What is said of a catalogue that is no JSON: the words of the HTTP client for a body that it
/// cannot decode.
pub const UNDECODABLE: &'static str = "error decoding response body";

/// Why a refresh failed: the source cannot be reached, or says what cannot be read.
#[derive(Debug)]
pub enum StoreError {
    /// The request failed.
    Request(String),
    /// It was answered with this status.
    Status(String),
    /// The catalogue cannot be read.
    Parse(String),
}

/// The contents of a store error.
#[verifier::ext_equal]
pub enum StoreErrorView {
    Request(Seq<char>),
    Status(Seq<char>),
    Parse(Seq<char>),
}

impl View for StoreError {
    type V = StoreErrorView;

    open spec fn view(&self) -> StoreErrorView {
        match self {
            StoreError::Request(s) => StoreErrorView::Request(s@),
            StoreError::Status(s) => StoreErrorView::Status(s@),
            StoreError::Parse(s) => StoreErrorView::Parse(s@),
        }
    }
}

/// The text of a store error.
pub open spec fn store_error_text(e: StoreErrorView) -> Seq<char> {
    match e {
        StoreErrorView::Request(cause) => "请求失败: "@ + cause,
        StoreErrorView::Status(status) => "HTTP "@ + status,
        StoreErrorView::Parse(cause) => "解析失败: "@ + cause,
    }
}

impl StoreError {
    /// The text shown to whoever made the request.
    pub fn message(&self) -> (r: String)
        ensures
            r@ == store_error_text(self@),
    {
        match self {
            StoreError::Request(cause) => "请求失败: ".to_owned().concat(cause.as_str()),
            StoreError::Status(status) => "HTTP ".to_owned().concat(status.as_str()),
            StoreError::Parse(cause) => "解析失败: ".to_owned().concat(cause.as_str()),
        }
    }
}

/// An application of the catalogue, and where its description is.
#[derive(Debug)]
pub struct StoreEntry {
    pub id: String,
    pub url: String,
}

/// The contents of an entry of the catalogue.
#[verifier::ext_equal]
pub struct EntryView {
    pub id: Seq<char>,
    pub url: Seq<char>,
}

impl View for StoreEntry {
    type V = EntryView;

    open spec fn view(&self) -> EntryView {
        EntryView { id: self.id@, url: self.url@ }
    }
}

/// The contents of a list of entries.
pub open spec fn entries_view(v: Seq<StoreEntry>) -> Seq<EntryView> {
    v.map_values(|e: StoreEntry| e@)
}

/// What comes before the paths in a catalogue: its own address without its name.
pub open spec fn base_url(url: Seq<char>) -> Seq<char> {
    trimmed_end(url, "index.json"@)
}

/// The applications of a catalogue whose id and path are both given, in order.
pub open spec fn entries_of(base: Seq<char>, items: Seq<(Option<Seq<char>>, Option<Seq<char>>)>) -> Seq<
    EntryView,
>
    decreases items.len(),
{
    if items.len() == 0 {
        Seq::empty()
    } else {
        let front = entries_of(base, items.drop_last());
        match items.last() {
            (Some(id), Some(path)) => front.push(EntryView { id, url: base + path }),
            _ => front,
        }
    }
}

/// What a catalogue lists; nothing where it has no list.
pub open spec fn catalogue(
    url: Seq<char>,
    index: Option<Seq<(Option<Seq<char>>, Option<Seq<char>>)>>,
) -> Seq<EntryView> {
    match index {
        Some(items) => entries_of(base_url(url), items),
        None => Seq::empty(),
    }
}

/// The contents of what a catalogue lists.
pub open spec fn index_view(index: Option<Vec<(Option<String>, Option<String>)>>) -> Option<
    Seq<(Option<Seq<char>>, Option<Seq<char>>)>,
> {
    match index {
        Some(items) => Some(pairs_view(items@)),
        None => None,
    }
}

/// Lists the applications of a catalogue whose id and path are both given.
pub fn list_entries(url: &str, index: Option<Vec<(Option<String>, Option<String>)>>) -> (r: Vec<
    StoreEntry,
>)
    ensures
        entries_view(r@) == catalogue(url@, index_view(index)),
{
    let mut r: Vec<StoreEntry> = Vec::new();
    match index {
        None => {
            assert(entries_view(r@) =~= Seq::<EntryView>::empty());
        },
        Some(items) => {
            proof {
                reveal_strlit("index.json");
            }
            let base = trim_end_matches(url, "index.json");
            let ghost seen = pairs_view(items@);
            let n = items.len();
            assert(entries_view(r@) =~= entries_of(base@, seen.take(0)));
            for i in 0..n
                invariant
                    n == items@.len(),
                    seen == pairs_view(items@),
                    entries_view(r@) == entries_of(base@, seen.take(i as int)),
            {
                let ghost before = r@;
                assert(seen.take(i + 1).drop_last() =~= seen.take(i as int));
                assert(seen.take(i + 1).last() == seen[i as int]);
                match (&items[i].0, &items[i].1) {
                    (Some(id), Some(path)) => {
                        r.push(
                            StoreEntry {
                                id: id.clone(),
                                url: base.clone().concat(path.as_str()),
                            },
                        );
                        assert(entries_view(r@) =~= entries_view(before).push(r@.last()@));
                    },
                    _ => {},
                }
            }
            assert(seen.take(n as int) =~= seen);
        },
    }
    r
}

/// The catalogue after descriptions were fetched: the applications whose description came, a
/// later one of an id in place of an earlier one.
pub open spec fn fetched(items: Seq<(String, Option<AppManifest>)>) -> Map<Seq<char>, AppView>
    decreases items.len(),
{
    if items.len() == 0 {
        Map::empty()
    } else {
        let front = fetched(items.drop_last());
        match items.last().1 {
            Some(app) => front.insert(items.last().0@, app@),
            None => front,
        }
    }
}

/// The store.
pub struct StoreService {
    url: String,
    apps: Table<AppManifest>,
}

impl View for StoreService {
    type V = Map<Seq<char>, AppView>;

    closed spec fn view(&self) -> Map<Seq<char>, AppView> {
        self.apps@
    }
}

impl StoreService {
    /// What holds of every store.
    pub closed spec fn wf(&self) -> bool {
        self.apps.wf()
    }

    /// The address of the catalogue.
    pub closed spec fn url(&self) -> Seq<char> {
        self.url@
    }

    /// The ids in the order in which applications are listed: increasing.
    pub closed spec fn ids(&self) -> Seq<Seq<char>> {
        self.apps.keys()
    }

    /// Each application is listed once, in the order of the ids.
    pub proof fn lemma_wf(&self)
        requires
            self.wf(),
        ensures
            lists_keys(self.ids(), self@),
    {
        self.apps.lemma_keys();
    }

    /// A store whose catalogue was not fetched yet.
    pub fn new(url: String) -> (r: StoreService)
        ensures
            r.wf(),
            r.url() == url@,
            r@ == Map::<Seq<char>, AppView>::empty(),
    {
        StoreService { url, apps: Table::new() }
    }

    /// The sources: there is one.
    pub fn list_sources(&self) -> (r: Vec<StoreSource>)
        ensures
            r@.len() == 1,
            r@[0]@ == (SourceView {
                id: "default"@,
                name: "pnos 官方商店"@,
                url: self.url(),
                enabled: true,
            }),
    {
        let mut r: Vec<StoreSource> = Vec::new();
        r.push(
            StoreSource {
                id: "default".to_owned(),
                name: "pnos 官方商店".to_owned(),
                url: self.url.clone(),
                enabled: true,
            },
        );
        r
    }

    /// The address that a refresh of any source asks for.
    pub fn refresh_url(&self) -> (r: &str)
        ensures
            r@ == self.url(),
    {
        self.url.as_str()
    }

    /// Takes in the status of the answer to a refresh.
    pub fn refresh_answered(status: u16, status_text: &str) -> (r: Result<(), StoreError>)
        ensures
            match r {
                Ok(()) => 200 <= status < 300,
                Err(e) => !(200 <= status < 300) && e@ == StoreErrorView::Status(status_text@),
            },
    {
        if crate::http::is_success(status) {
            Ok(())
        } else {
            Err(StoreError::Status(status_text.to_owned()))
        }
    }

    /// Reads a catalogue: which descriptions are to be fetched.
    pub fn refresh_source(&self, body: &[u8]) -> (r: Result<Vec<StoreEntry>, StoreError>)
        ensures
            match json_pairs_of(body@, "apps"@, "id"@, "app_yml"@) {
                Ok(index) => r is Ok && entries_view(r->Ok_0@) == catalogue(self.url(), index),
                Err(_) => r is Err && r->Err_0@ == StoreErrorView::Parse(UNDECODABLE@),
            },
    {
        match json_pairs(body, "apps", "id", "app_yml") {
            Ok(index) => Ok(list_entries(self.url.as_str(), index)),
            Err(_) => Err(StoreError::Parse(UNDECODABLE.to_owned())),
        }
    }

    /// Puts the descriptions that were fetched in place of the catalogue. Tells how many there
    /// are.
    pub fn refreshed(&mut self, items: Vec<(String, Option<AppManifest>)>) -> (r: usize)
        requires
            old(self).wf(),
        ensures
            final(self).wf(),
            final(self).url() == old(self).url(),
            final(self)@ == fetched(items@),
            r == final(self).ids().len(),
    {
        let mut apps: Table<AppManifest> = Table::new();
        let ghost all = items@;
        let n = items.len();
        let mut items = items;
        let mut left: Vec<(String, Option<AppManifest>)> = Vec::new();
        for i in 0..n
            invariant
                items@ == all.take(n - i),
                n == all.len(),
                left@ == all.skip(n - i).reverse(),
        {
            let item = items.pop();
            match item {
                Some(x) => {
                    assert(x == all[n - i - 1]);
                    assert(items@ =~= all.take(n - i - 1));
                    assert(all.skip(n - i - 1).reverse() =~= all.skip(n - i).reverse().push(x));
                    left.push(x);
                },
                None => {},
            }
        }
        assert(all.skip(0) =~= all);
        for i in 0..n
            invariant
                n == all.len(),
                left@ == all.skip(i as int).reverse(),
                apps.wf(),
                apps@ == fetched(all.take(i as int)),
        {
            assert(left@.len() == n - i);
            match left.pop() {
                Some((id, app)) => {
                    assert(left@ =~= all.skip(i + 1).reverse());
                    assert((id, app) == all[i as int]);
                    assert(all.take(i + 1).drop_last() =~= all.take(i as int));
                    assert(all.take(i + 1).last() == all[i as int]);
                    match app {
                        Some(manifest) => {
                            let _ = apps.insert(id, manifest);
                        },
                        None => {},
                    }
                },
                None => {},
            }
        }
        assert(all.take(n as int) =~= all);
        self.apps = apps;
        self.apps.len()
    }

    /// The description of an application.
    pub fn get_app_manifest(&self, id: &str) -> (r: Option<&AppManifest>)
        requires
            self.wf(),
        ensures
            match r {
                Some(app) => self@.contains_key(id@) && app@ == self@[id@],
                None => !self@.contains_key(id@),
            },
    {
        self.apps.get(id)
    }

    /// The descriptions of all applications, in the order of their ids.
    pub fn list_apps(&self) -> (r: Vec<&AppManifest>)
        requires
            self.wf(),
        ensures
            r@.len() == self.ids().len(),
            forall|i: int| 0 <= i < r@.len() ==> #[trigger] r@[i]@ == self@[self.ids()[i]],
    {
        let mut r: Vec<&AppManifest> = Vec::new();
        let n = self.apps.len();
        for i in 0..n
            invariant
                self.wf(),
                n == self.ids().len(),
                r@.len() == i,
                forall|j: int| 0 <= j < i ==> #[trigger] r@[j]@ == self@[self.ids()[j]],
        {
            r.push(self.apps.value_at(i));
        }
        r
    }

    /// The whole description of an application as it came.
    pub fn get_app(&self, id: &str) -> (r: Option<&str>)
        requires
            self.wf(),
        ensures
            match r {
                Some(document) => self@.contains_key(id@) && document@ == self@[id@].document,
                None => !self@.contains_key(id@),
            },
    {
        match self.apps.get(id) {
            Some(app) => Some(app.document.as_str()),
            None => None,
        }
    }
}

/// Whether the `i`-th item brings a description of this application.
pub open spec fn brings(items: Seq<(String, Option<AppManifest>)>, i: int, id: Seq<char>) -> bool {
    0 <= i < items.len() && items[i].0@ == id && items[i].1 is Some
}

/// An application is in the catalogue after a refresh exactly when a description of it was
/// fetched; what was there before does not matter.
pub proof fn lemma_fetched(items: Seq<(String, Option<AppManifest>)>, id: Seq<char>)
    ensures
        fetched(items).contains_key(id) <==> exists|i: int| #[trigger] brings(items, i, id),
    decreases items.len(),
{
    if items.len() > 0 {
        let front = items.drop_last();
        let last = items.len() - 1;
        lemma_fetched(front, id);
        if brings(items, last, id) {
            assert(fetched(items).contains_key(id));
        } else {
            assert(fetched(items).contains_key(id) == fetched(front).contains_key(id));
            if fetched(front).contains_key(id) {
                let i = choose|i: int| #[trigger] brings(front, i, id);
                assert(brings(items, i, id));
            }
            if exists|i: int| #[trigger] brings(items, i, id) {
                let i = choose|i: int| #[trigger] brings(items, i, id);
                assert(brings(front, i, id));
            }
        }
    }
}

/// Of several descriptions of an application the last one counts.
pub proof fn lemma_last_counts(items: Seq<(String, Option<AppManifest>)>, id: Seq<char>, i: int)
    requires
        brings(items, i, id),
        forall|j: int| i < j ==> !#[trigger] brings(items, j, id),
    ensures
        fetched(items).contains_key(id),
        fetched(items)[id] == items[i].1->0@,
    decreases items.len(),
{
    let front = items.drop_last();
    let last = items.len() - 1;
    if i < last {
        assert(!brings(items, last, id));
        assert(brings(front, i, id));
        assert forall|j: int| i < j implies !#[trigger] brings(front, j, id) by {
            assert(!brings(items, j, id));
        }
        lemma_last_counts(front, id, i);
    }
}

} // verus!
