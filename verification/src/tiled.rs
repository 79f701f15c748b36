//! What a minimal Tiled catalog sink sends for each document.

use vstd::prelude::*;
use vstd::string::*;

use crate::codec::{join_url, url_join};
use crate::documents::Document;
use crate::error::CirrusError;
use crate::strmap::StrMap;
use crate::text::{
    join2, join3, law_trimming_drops_the_ends, only, trim_back, trim_end_char, trim_front,
    trim_start_char,
};
use crate::value::{object, object1, object2, text_json, Json, JsonView};

verus! {

/// What to send for a document.
#[derive(Debug)]
pub enum TiledAction {
    /// Nothing.
    Skip,
    /// Register a run: post the body to the address. A failure fails the document.
    Register {
        /// Address.
        url: String,
        /// Body.
        body: Json,
    },
    /// Patch the metadata of a run: patch the address with the body. A failure is only
    /// reported.
    Patch {
        /// Address.
        url: String,
        /// Body.
        body: Json,
    },
    /// Nothing can be sent; the text is only reported.
    Report(String),
}

/// Decides what a minimal catalog sink sends.
#[derive(Debug)]
pub struct TiledSink {
    api: String,
    container: String,
    runs_started: StrMap<bool>,
}

/// What a [`TiledSink`] stands for.
pub struct TiledView {
    /// Base address of the service.
    pub api: Seq<char>,
    /// Container under which runs are written.
    pub container: Seq<char>,
    /// Runs that were registered.
    pub runs_started: Set<Seq<char>>,
}

impl View for TiledSink {
    type V = TiledView;

    closed spec fn view(&self) -> TiledView {
        TiledView {
            api: self.api@,
            container: self.container@,
            runs_started: self.runs_started@.dom(),
        }
    }
}

/// The address of a path relative to the service, or the text of the error.
pub open spec fn address(api: Seq<char>, path: Seq<char>) -> Result<Seq<char>, Seq<char>> {
    match url_join(api, trim_front(path, only('/'))) {
        Ok(u) => Ok(u),
        Err(e) => Err("tiled url join: "@ + e),
    }
}

/// The path at which runs are registered.
pub open spec fn register_path(container: Seq<char>) -> Seq<char> {
    "register/"@ + container
}

/// The path of the metadata of a run.
pub open spec fn metadata_path(container: Seq<char>, uid: Seq<char>) -> Seq<char> {
    "metadata/"@ + container + "/"@ + uid
}

/// The body that registers a run.
pub open spec fn register_body(uid: Seq<char>, start: JsonView) -> JsonView {
    JsonView::Object(
        seq![
            ("structure_family"@, JsonView::Str("container"@)),
            ("metadata"@, JsonView::Object(seq![("start"@, start)])),
            (
                "specs"@,
                JsonView::Array(
                    seq![
                        JsonView::Object(
                            seq![
                                ("name"@, JsonView::Str("BlueskyRun"@)),
                                ("version"@, JsonView::Str("1.0"@)),
                            ],
                        ),
                    ],
                ),
            ),
            ("key"@, JsonView::Str(uid)),
        ],
    )
}

/// The body that patches the metadata of a run.
pub open spec fn patch_body(stop: JsonView) -> JsonView {
    JsonView::Object(seq![("metadata"@, JsonView::Object(seq![("stop"@, stop)]))])
}

/// What a start document leads to.
pub open spec fn start_handled(
    before: TiledView,
    after: TiledView,
    uid: Seq<char>,
    body: JsonView,
    r: Result<TiledAction, CirrusError>,
) -> bool {
    if before.runs_started.contains(uid) {
        r == Ok::<TiledAction, CirrusError>(TiledAction::Skip) && after == before
    } else {
        &&& after == TiledView { runs_started: before.runs_started.insert(uid), ..before }
        &&& match address(before.api, register_path(before.container)) {
            Ok(u) => match r {
                Ok(TiledAction::Register { url, body: b }) => url@ == u && b.deep_view()
                    == register_body(uid, body),
                _ => false,
            },
            Err(text) => match r {
                Err(CirrusError::Backend(m)) => m@ == text,
                _ => false,
            },
        }
    }
}

/// What a stop document leads to.
pub open spec fn stop_handled(
    s: TiledView,
    uid: Seq<char>,
    body: JsonView,
    r: Result<TiledAction, CirrusError>,
) -> bool {
    match address(s.api, metadata_path(s.container, uid)) {
        Ok(u) => match r {
            Ok(TiledAction::Patch { url, body: b }) => url@ == u && b.deep_view() == patch_body(
                body,
            ),
            _ => false,
        },
        Err(text) => match r {
            Ok(TiledAction::Report(m)) => m@ == text,
            _ => false,
        },
    }
}

impl TiledSink {
    /// A sink for the service at `api`, writing under `container`; slashes at the ends of the
    /// container are dropped.
    pub fn new(api: String, container: &str) -> (s: Self)
        ensures
            s@.api == api@,
            s@.container == trim_back(trim_front(container@, only('/')), only('/')),
            s@.runs_started == Set::<Seq<char>>::empty(),
    {
        let s = TiledSink {
            api,
            container: trim_end_char(&trim_start_char(container, '/'), '/'),
            runs_started: StrMap::new(),
        };
        assert(s@.runs_started =~= Set::empty());
        s
    }

    /// The address of a path relative to the service.
    pub fn url(&self, path: &str) -> (r: Result<String, CirrusError>)
        ensures
            match r {
                Ok(u) => address(self@.api, path@) == Ok::<Seq<char>, Seq<char>>(u@),
                Err(e) => address(self@.api, path@) is Err && match e {
                    CirrusError::Backend(m) => m@ == address(self@.api, path@)->Err_0,
                    _ => false,
                },
            },
    {
        match join_url(&self.api, &trim_start_char(path, '/')) {
            Ok(u) => Ok(u),
            Err(e) => Err(CirrusError::Backend(join2("tiled url join: ", &e))),
        }
    }

    /// Registers a run the first time that its start document is seen.
    pub fn ensure_run_registered(&mut self, run_uid: &str, start: Json) -> (r: Result<
        TiledAction,
        CirrusError,
    >)
        ensures
            start_handled(old(self)@, final(self)@, run_uid@, start.deep_view(), r),
    {
        if self.runs_started.contains_key(run_uid) {
            return Ok(TiledAction::Skip);
        }
        self.runs_started.insert(run_uid.to_owned(), true);
        assert(self@.runs_started =~= old(self)@.runs_started.insert(run_uid@));
        match self.url(&join2("register/", &self.container)) {
            Err(e) => Err(e),
            Ok(url) => {
                let kind = object2("name", text_json("BlueskyRun"), "version", text_json("1.0"));
                let mut specs: Vec<Json> = Vec::new();
                specs.push(kind);
                let mut members: Vec<(String, Json)> = Vec::new();
                members.push(("structure_family".to_owned(), text_json("container")));
                members.push(("metadata".to_owned(), object1("start", start)));
                members.push(("specs".to_owned(), Json::Array(specs)));
                members.push(("key".to_owned(), text_json(run_uid)));
                let body = object(members);
                proof {
                    let want = register_body(run_uid@, start.deep_view())->Object_0;
                    reveal_with_fuel(crate::value::json_view, 2);
                    let list = members@[2].1.deep_view();
                    assert(list->Array_0 =~= want[2].1->Array_0);
                    assert(body.deep_view()->Object_0 =~= want);
                }
                Ok(TiledAction::Register { url, body })
            },
        }
    }

    /// Patches the metadata of a run when its stop document arrives.
    pub fn patch_run_stop(&self, run_uid: &str, stop: Json) -> (r: Result<
        TiledAction,
        CirrusError,
    >)
        ensures
            stop_handled(self@, run_uid@, stop.deep_view(), r),
    {
        let path = join2(&join3("metadata/", &self.container, "/"), run_uid);
        match self.url(&path) {
            Ok(url) => Ok(
                TiledAction::Patch { url, body: object1("metadata", object1("stop", stop)) },
            ),
            Err(e) => Ok(TiledAction::Report(e.describe())),
        }
    }

    /// Decides what to send for a document with the given body. A start opens a container, a
    /// stop patches it, and everything else is dropped.
    pub fn dispatch(&mut self, doc: &Document, body: Json) -> (r: Result<TiledAction, CirrusError>)
        ensures
            match *doc {
                Document::Start(s) => start_handled(
                    old(self)@,
                    final(self)@,
                    s.uid@,
                    body.deep_view(),
                    r,
                ),
                Document::Stop(s) => final(self)@ == old(self)@ && stop_handled(
                    old(self)@,
                    s.run_start@,
                    body.deep_view(),
                    r,
                ),
                _ => final(self)@ == old(self)@ && r == Ok::<TiledAction, CirrusError>(
                    TiledAction::Skip,
                ),
            },
    {
        match doc {
            Document::Start(s) => self.ensure_run_registered(&s.uid, body),
            Document::Stop(s) => self.patch_run_stop(&s.run_start, body),
            _ => Ok(TiledAction::Skip),
        }
    }
}

/// A run is registered at most once: a second start document of the same run sends nothing.
pub proof fn law_registered_once(
    s0: TiledView,
    s1: TiledView,
    s2: TiledView,
    uid: Seq<char>,
    b1: JsonView,
    b2: JsonView,
    r1: Result<TiledAction, CirrusError>,
    r2: Result<TiledAction, CirrusError>,
)
    requires
        start_handled(s0, s1, uid, b1, r1),
        start_handled(s1, s2, uid, b2, r2),
    ensures
        r2 == Ok::<TiledAction, CirrusError>(TiledAction::Skip),
        s2 == s1,
{
}

/// The member `key` of an object, looked up position by position.
pub open spec fn holds(o: JsonView, key: Seq<char>, v: JsonView) -> bool {
    o matches JsonView::Object(m) && exists|i: int|
        0 <= i < m.len() && #[trigger] m[i] == (key, v) && forall|k: int|
            0 <= k < m.len() && k != i ==> (#[trigger] m[k]).0 != key
}

/// A run that is new is registered below the container with its start document in full and under
/// its own uid, and is known from then on; all other runs are known as before.
pub proof fn law_new_run_is_registered(
    before: TiledView,
    after: TiledView,
    uid: Seq<char>,
    start: JsonView,
    r: Result<TiledAction, CirrusError>,
)
    requires
        start_handled(before, after, uid, start, r),
        !before.runs_started.contains(uid),
    ensures
        forall|other: Seq<char>| #[trigger]
            after.runs_started.contains(other) <==> other == uid || before.runs_started.contains(
                other,
            ),
        after.api == before.api,
        after.container == before.container,
        match r {
            Ok(TiledAction::Register { url, body }) => {
                &&& url_join(before.api, "register/"@ + before.container) == Ok::<
                    Seq<char>,
                    Seq<char>,
                >(url@)
                &&& holds(body.deep_view(), "key"@, JsonView::Str(uid))
                &&& holds(body.deep_view(), "structure_family"@, JsonView::Str("container"@))
                &&& exists|m: JsonView|
                    holds(body.deep_view(), "metadata"@, m) && #[trigger] holds(m, "start"@, start)
            },
            Ok(_) => false,
            Err(_) => url_join(before.api, "register/"@ + before.container) is Err,
        },
{
    reveal_strlit("register/");
    assert(register_path(before.container)[0] == 'r');
    reveal_strlit("structure_family");
    reveal_strlit("metadata");
    reveal_strlit("specs");
    reveal_strlit("key");
    let m = register_body(uid, start)->Object_0;
    assert(m[0].0.len() == 16 && m[1].0.len() == 8 && m[2].0.len() == 5 && m[3].0.len() == 3);
    let inner = JsonView::Object(seq![("start"@, start)]);
    assert(inner->Object_0[0] == ("start"@, start));
    assert(holds(inner, "start"@, start));
    assert(m[1] == ("metadata"@, inner));
    assert(m[3] == ("key"@, JsonView::Str(uid)));
    assert(m[0] == ("structure_family"@, JsonView::Str("container"@)));
    assert(holds(register_body(uid, start), "metadata"@, inner));
    assert(holds(register_body(uid, start), "key"@, JsonView::Str(uid)));
}

/// The stop document of a run is added in full to the metadata of that run, and to no other; a
/// failure is only reported.
pub proof fn law_stop_document_is_added(
    s: TiledView,
    uid: Seq<char>,
    stop: JsonView,
    r: Result<TiledAction, CirrusError>,
)
    requires
        stop_handled(s, uid, stop, r),
    ensures
        match r {
            Ok(TiledAction::Patch { url, body }) => {
                &&& url_join(s.api, "metadata/"@ + s.container + "/"@ + uid) == Ok::<
                    Seq<char>,
                    Seq<char>,
                >(url@)
                &&& exists|m: JsonView|
                    holds(body.deep_view(), "metadata"@, m) && #[trigger] holds(m, "stop"@, stop)
            },
            Ok(TiledAction::Report(_)) => url_join(
                s.api,
                "metadata/"@ + s.container + "/"@ + uid,
            ) is Err,
            _ => false,
        },
{
    reveal_strlit("metadata/");
    assert(metadata_path(s.container, uid)[0] == 'm');
    let inner = JsonView::Object(seq![("stop"@, stop)]);
    assert(inner->Object_0[0] == ("stop"@, stop));
    assert(holds(inner, "stop"@, stop));
    assert(patch_body(stop)->Object_0[0] == ("metadata"@, inner));
    assert(holds(patch_body(stop), "metadata"@, inner));
}

/// A start document registers its run the first time, a stop document patches the run that it ends,
/// and no other document is sent or remembered.
pub proof fn law_documents_are_dispatched(
    t: &mut TiledSink,
    doc: &Document,
    body: Json,
    r: Result<TiledAction, CirrusError>,
)
    requires
        call_ensures(TiledSink::dispatch, (t, doc, body), r),
    ensures
        match *doc {
            Document::Start(s) => {
                &&& start_handled(old(t)@, final(t)@, s.uid@, body.deep_view(), r)
                &&& final(t)@.runs_started.contains(s.uid@)
                &&& r == Ok::<TiledAction, CirrusError>(TiledAction::Skip)
                    <==> old(t)@.runs_started.contains(s.uid@)
            },
            Document::Stop(s) => final(t)@ == old(t)@ && stop_handled(
                old(t)@,
                s.run_start@,
                body.deep_view(),
                r,
            ),
            _ => final(t)@ == old(t)@ && r == Ok::<TiledAction, CirrusError>(TiledAction::Skip),
        },
{
}

/// The container of a sink has no slash at either end, and every address is joined to that of the
/// service.
pub proof fn law_addresses_stand_below_the_service(
    api: String,
    container: &str,
    s: TiledSink,
    t: &TiledSink,
    path: &str,
    u: Result<String, CirrusError>,
)
    requires
        call_ensures(TiledSink::new, (api, container), s),
        call_ensures(TiledSink::url, (t, path), u),
    ensures
        s@.api == api@,
        s@.container.len() > 0 ==> s@.container[0] != '/' && s@.container.last() != '/',
        path@.len() == 0 || path@[0] != '/' ==> (match url_join(t@.api, path@) {
            Ok(x) => u is Ok && u->Ok_0@ == x,
            Err(_) => u is Err,
        }),
{
    let front = trim_front(container@, only('/'));
    law_trimming_drops_the_ends(container@, only('/'));
    law_trimming_drops_the_ends(front, only('/'));
    let k = choose|k: int|
        0 <= k <= container@.len() && front == container@.skip(k) && (forall|i: int|
            0 <= i < k ==> only('/')(#[trigger] container@[i])) && (k < container@.len() ==> !only(
            '/',
        )(container@[k]));
    let j = choose|j: int|
        0 <= j <= front.len() && trim_back(front, only('/')) == front.take(j) && (forall|i: int|
            j <= i < front.len() ==> only('/')(#[trigger] front[i])) && (j > 0 ==> !only('/')(
            front[j - 1],
        ));
}

} // verus!
