//! Cache freshness, the web checker, and whole-batch validation driven by a
//! scripted context that needs no network.

use std::cell::Cell;
use std::rc::Rc;

use linkcheck::path::FsPath;
use linkcheck::validation::{
    check_filesystem, check_web, Cache, CacheEntry, Context, IoErrorKind, Options, Outcomes,
    Reason, WebError,
};
use linkcheck::{validate, FileId, Link, Span};

/// A context whose probe answers from a script and counts its calls.
struct TestContext {
    options: Options,
    cache: Cache,
    probe_result: Result<(), WebError>,
    probe_calls: Rc<Cell<usize>>,
    in_flight: Rc<Cell<usize>>,
    max_in_flight: Rc<Cell<usize>>,
    custom_validation_error: Option<Reason>,
    ignore_hrefs: Vec<String>,
}

impl TestContext {
    fn new() -> TestContext {
        TestContext {
            options: Options::default(),
            cache: Cache::new(),
            probe_result: Ok(()),
            probe_calls: Rc::new(Cell::new(0)),
            in_flight: Rc::new(Cell::new(0)),
            max_in_flight: Rc::new(Cell::new(0)),
            custom_validation_error: None,
            ignore_hrefs: Vec::new(),
        }
    }
}

impl Context for TestContext {
    // ghost items of the trait; never called at runtime
    fn spec_filesystem_options(&self) -> Options {
        self.options.clone()
    }

    fn spec_should_ignore(&self, _link: Link) -> bool {
        false
    }

    fn filesystem_options<'a>(&'a self) -> &'a Options {
        &self.options
    }

    fn should_ignore(&self, link: &Link) -> bool {
        self.ignore_hrefs.iter().any(|h| *h == link.href)
    }

    fn concurrency(&self) -> usize {
        64
    }

    fn cache_timeout(&self) -> u64 {
        24 * 60 * 60
    }

    fn url_specific_headers(&self, _url: &str) -> Vec<(String, String)> {
        Vec::new()
    }

    fn cache_get(&self, url: &str) -> Option<CacheEntry> {
        self.cache.lookup(url)
    }

    fn cache_put(&mut self, url: &str, entry: CacheEntry) {
        self.cache.insert(url.to_owned(), entry);
    }

    fn probe(&mut self, _url: &str, _extra_headers: &Vec<(String, String)>) -> Result<(), WebError> {
        let current = self.in_flight.get() + 1;
        self.in_flight.set(current);
        if current > self.max_in_flight.get() {
            self.max_in_flight.set(current);
        }
        self.probe_calls.set(self.probe_calls.get() + 1);
        self.in_flight.set(self.in_flight.get() - 1);
        self.probe_result.clone()
    }

    fn custom_validation(&self, _path: &FsPath, _fragment: Option<&String>) -> Result<(), Reason> {
        match &self.custom_validation_error {
            Some(reason) => Err(reason.clone()),
            None => Ok(()),
        }
    }
}

fn link(href: &str) -> Link {
    Link::new(String::from(href), Span::new(0, 0), FileId(1))
}

fn hrefs(links: &[Link]) -> Vec<String> {
    let mut out: Vec<String> = links.iter().map(|l| l.href.clone()).collect();
    out.sort();
    out
}

fn now_secs() -> u64 {
    std::time::SystemTime::now()
        .duration_since(std::time::UNIX_EPOCH)
        .unwrap()
        .as_secs()
}

#[test]
fn cache_freshness() {
    let timeout: u64 = 24 * 60 * 60;
    let now = 1_700_000_000u64;

    // a success recorded just now is fresh...
    let entry = CacheEntry::new(now, true);
    assert!(entry.is_fresh(timeout, now));
    // ...but stale once the timeout has elapsed
    assert!(!entry.is_fresh(timeout, now + timeout));
    // a recorded failure is never fresh, however recent
    let failure = CacheEntry::new(now, false);
    assert!(!failure.is_fresh(timeout, now));
    assert!(!failure.is_fresh(timeout, now + 1));
}

#[test]
fn cache_lookup_and_overwrite() {
    let mut cache = Cache::new();
    let url = "https://example.com/";
    assert_eq!(cache.lookup(url), None);

    cache.insert(String::from(url), CacheEntry::new(10, true));
    assert_eq!(cache.lookup(url), Some(CacheEntry::new(10, true)));

    // a later probe's entry simply overwrites the earlier one
    cache.insert(String::from(url), CacheEntry::new(20, false));
    assert_eq!(cache.lookup(url), Some(CacheEntry::new(20, false)));
    assert_eq!(cache.iter().len(), 1);

    cache.clear();
    assert_eq!(cache.lookup(url), None);
}

#[test]
fn url_is_still_valid_only_within_timeout() {
    let mut cache = Cache::new();
    let url = "https://example.com/";
    let now = 1_700_000_000u64;
    cache.insert(String::from(url), CacheEntry::new(now, true));

    assert!(cache.url_is_still_valid(url, 60, now));
    assert!(cache.url_is_still_valid(url, 60, now + 59));
    assert!(!cache.url_is_still_valid(url, 60, now + 60));

    cache.insert(String::from(url), CacheEntry::new(now, false));
    assert!(!cache.url_is_still_valid(url, 60, now));
}

#[test]
fn check_web_consults_and_fills_the_cache() {
    let mut ctx = TestContext::new();
    let url = "https://example.com/";

    assert!(check_web(url, &mut ctx).is_ok());
    assert_eq!(ctx.probe_calls.get(), 1);
    let entry = ctx.cache.lookup(url).expect("the outcome must be recorded");
    assert!(entry.valid);

    // the fresh cached success now answers without a probe
    assert!(check_web(url, &mut ctx).is_ok());
    assert_eq!(ctx.probe_calls.get(), 1);
}

#[test]
fn check_web_records_failures_and_reprobes_them() {
    let mut ctx = TestContext::new();
    ctx.probe_result = Err(WebError::Status(404));
    let url = "https://example.com/missing";

    let err = check_web(url, &mut ctx).unwrap_err();
    assert!(matches!(err, Reason::Web(WebError::Status(404))));
    let entry = ctx.cache.lookup(url).expect("the outcome must be recorded");
    assert!(!entry.valid);

    // a cached failure is never fresh: the next check probes again
    assert!(check_web(url, &mut ctx).is_err());
    assert_eq!(ctx.probe_calls.get(), 2);
}

#[test]
fn timed_out_identifies_timeouts() {
    assert!(Reason::Web(WebError::Timeout).timed_out());
    assert!(!Reason::Web(WebError::Transport).timed_out());
    assert!(!Reason::TraversesParentDirectories.timed_out());
}

#[test]
fn custom_validation_function_gets_called() {
    let temp = tempfile::tempdir().unwrap();
    let temp = dunce::canonicalize(temp.path()).unwrap();
    fs_err::write(temp.join("mod.rs"), b"").unwrap();
    let current_dir = FsPath::from_str(temp.to_str().unwrap());
    let link_path = FsPath::from_str("mod.rs");
    let mut ctx = TestContext::new();
    ctx.custom_validation_error = Some(Reason::Web(WebError::Transport));

    let got = check_filesystem(&current_dir, &link_path, None, &ctx).unwrap_err();

    assert!(matches!(got, Reason::Web(WebError::Transport)));
}

#[test]
fn end_to_end() {
    let temp = tempfile::tempdir().unwrap();
    let temp = dunce::canonicalize(temp.path()).unwrap();
    let current_dir = FsPath::from_str(temp.to_str().unwrap());
    let mut ctx = TestContext::new();

    let links = vec![
        link("https://example.com"),
        link("./missing.md"),
        link("/etc/passwd"),
    ];

    let outcomes: Outcomes = validate(&current_dir, links, &mut ctx);

    assert_eq!(hrefs(&outcomes.valid), vec![String::from("https://example.com")]);
    assert_eq!(outcomes.invalid.len(), 2);
    for invalid in &outcomes.invalid {
        match invalid.link.href.as_str() {
            "./missing.md" => assert!(invalid.reason.file_not_found()),
            "/etc/passwd" => assert!(matches!(
                invalid.reason,
                Reason::TraversesParentDirectories
            )),
            other => panic!("unexpected invalid link {}", other),
        }
    }
    assert!(outcomes.ignored.is_empty());
    assert!(outcomes.unknown_category.is_empty());
}

#[test]
fn ignored_links_are_reported_as_ignored() {
    let temp = tempfile::tempdir().unwrap();
    let temp = dunce::canonicalize(temp.path()).unwrap();
    let current_dir = FsPath::from_str(temp.to_str().unwrap());
    let mut ctx = TestContext::new();
    ctx.ignore_hrefs.push(String::from("./skipped.md"));

    let outcomes = validate(
        &current_dir,
        vec![link("./skipped.md"), link("https://example.com")],
        &mut ctx,
    );

    assert_eq!(hrefs(&outcomes.ignored), vec![String::from("./skipped.md")]);
    assert_eq!(hrefs(&outcomes.valid), vec![String::from("https://example.com")]);
    assert_eq!(ctx.probe_calls.get(), 1);
}

#[test]
fn validating_twice_with_a_warm_cache_is_idempotent_and_probe_free() {
    let temp = tempfile::tempdir().unwrap();
    let temp = dunce::canonicalize(temp.path()).unwrap();
    fs_err::write(temp.join("present.md"), b"").unwrap();
    let current_dir = FsPath::from_str(temp.to_str().unwrap());
    let mut ctx = TestContext::new();

    let batch = || {
        vec![
            link("https://example.com"),
            link("https://example.com/other"),
            link("./present.md"),
        ]
    };

    let first = validate(&current_dir, batch(), &mut ctx);
    let probes_after_first = ctx.probe_calls.get();
    assert_eq!(probes_after_first, 2);

    let second = validate(&current_dir, batch(), &mut ctx);

    // identical outcomes, order ignored
    assert_eq!(hrefs(&first.valid), hrefs(&second.valid));
    assert_eq!(first.invalid.len(), second.invalid.len());
    assert_eq!(hrefs(&first.ignored), hrefs(&second.ignored));
    assert_eq!(
        hrefs(&first.unknown_category),
        hrefs(&second.unknown_category)
    );
    // and no additional probes: the cached successes are still fresh
    assert_eq!(ctx.probe_calls.get(), probes_after_first);
}

#[test]
fn in_flight_probes_never_exceed_the_concurrency_limit() {
    let temp = tempfile::tempdir().unwrap();
    let temp = dunce::canonicalize(temp.path()).unwrap();
    let current_dir = FsPath::from_str(temp.to_str().unwrap());
    let mut ctx = TestContext::new();

    let links: Vec<Link> = (0..10)
        .map(|i| link(&format!("https://example.com/{}", i)))
        .collect();
    let limit = ctx.concurrency();

    let _ = validate(&current_dir, links, &mut ctx);

    assert!(ctx.max_in_flight.get() >= 1);
    assert!(ctx.max_in_flight.get() <= limit);
}

#[test]
fn merge_combines_and_commutes_on_contents() {
    let mut a = Outcomes::empty();
    a.valid.push(link("https://one.example"));
    let mut b = Outcomes::empty();
    b.valid.push(link("https://two.example"));
    b.ignored.push(link("./later.md"));

    let mut ab = Outcomes::empty();
    ab.merge(a);
    ab.merge(b);

    assert_eq!(
        hrefs(&ab.valid),
        vec![
            String::from("https://one.example"),
            String::from("https://two.example")
        ]
    );
    assert_eq!(hrefs(&ab.ignored), vec![String::from("./later.md")]);
    assert!(ab.invalid.is_empty());
    assert!(ab.unknown_category.is_empty());
}

#[test]
fn default_context_has_sane_defaults() {
    let ctx = linkcheck::BasicContext::default();
    assert!(ctx.options.root_directory.is_none());
    assert!(!ctx.options.links_may_traverse_the_root_directory);
    assert!(ctx.options.follow_symlinks);
    assert_eq!(ctx.cache_timeout(), 24 * 60 * 60);
    assert_eq!(ctx.concurrency(), 64);
}

#[test]
fn file_not_found_matches_only_missing_files() {
    assert!(Reason::Io(IoErrorKind::NotFound).file_not_found());
    assert!(!Reason::Io(IoErrorKind::PermissionDenied).file_not_found());
    assert!(!Reason::TraversesParentDirectories.file_not_found());
}

#[test]
fn fresh_entry_from_the_wall_clock() {
    let mut cache = Cache::new();
    let url = "https://example.com/";
    let now = now_secs();
    cache.insert(String::from(url), CacheEntry::new(now, true));
    assert!(cache.url_is_still_valid(url, 24 * 60 * 60, now));
}

#[test]
fn extending_a_cache_keeps_the_last_binding_per_url() {
    let mut cache = Cache::new();
    cache.insert(String::from("https://kept.example"), CacheEntry::new(1, true));
    cache.insert(String::from("https://old.example"), CacheEntry::new(2, false));

    cache.extend(vec![
        (String::from("https://old.example"), CacheEntry::new(3, true)),
        (String::from("https://new.example"), CacheEntry::new(4, false)),
        (String::from("https://new.example"), CacheEntry::new(5, true)),
    ]);

    assert_eq!(
        cache.lookup("https://kept.example"),
        Some(CacheEntry::new(1, true))
    );
    assert_eq!(
        cache.lookup("https://old.example"),
        Some(CacheEntry::new(3, true))
    );
    assert_eq!(
        cache.lookup("https://new.example"),
        Some(CacheEntry::new(5, true))
    );
    assert_eq!(cache.iter().len(), 3);
}

#[test]
fn validating_an_empty_batch_yields_empty_outcomes() {
    let mut ctx = TestContext::new();
    let outcomes = validate(&FsPath::from_str("."), Vec::new(), &mut ctx);
    assert!(outcomes.valid.is_empty());
    assert!(outcomes.invalid.is_empty());
    assert!(outcomes.ignored.is_empty());
    assert!(outcomes.unknown_category.is_empty());
    assert_eq!(ctx.probe_calls.get(), 0);
}

#[test]
fn probe_timeouts_surface_as_timeout_reasons() {
    let mut ctx = TestContext::new();
    ctx.probe_result = Err(WebError::Timeout);

    let err = check_web("https://slow.example", &mut ctx).unwrap_err();

    assert!(err.timed_out());
    assert!(!ctx.cache.lookup("https://slow.example").unwrap().valid);
}

#[test]
fn unclassifiable_links_land_in_their_own_bucket() {
    let mut ctx = TestContext::new();

    let outcomes = validate(
        &FsPath::from_str("."),
        vec![link("not a link"), link("https://example.com")],
        &mut ctx,
    );

    assert_eq!(
        hrefs(&outcomes.unknown_category),
        vec![String::from("not a link")]
    );
    assert_eq!(hrefs(&outcomes.valid), vec![String::from("https://example.com")]);
    assert!(outcomes.invalid.is_empty());
}
