//! Reading a station's stream description: the playlist URLs of the
//! stream entries whose time-free and area-free flags are the ones asked for.
use vstd::prelude::*;
use crate::record::same_text;
use crate::station_list::events_view;
use crate::xml::{SpecXmlAttr, SpecXmlEvent, XmlAttr, XmlEvent, attrs_view, events_before_eof, has_text, joined, lemma_has_text_extend, no_eof, read_xml_events, wrapped, xml_events};

verus! {

/// Whether the attributes hold `name` with the value `value`, looking at
/// them in order and stopping at the first match; `None` where an attribute
/// met before that cannot be read (malformed, a key that is not UTF-8, or a
/// value of the sought key that cannot be decoded).
pub open spec fn attr_check(attrs: Seq<SpecXmlAttr>, name: Seq<char>, value: Seq<char>) -> Option<bool>
    decreases attrs.len(),
{
    if attrs.len() == 0 {
        Some(false)
    } else {
        match attrs[0] {
            SpecXmlAttr::Malformed => None,
            SpecXmlAttr::Attr { key, value: v } => match key {
                None => None,
                Some(k) => if k == name {
                    match v {
                        None => None,
                        Some(x) => if x == value { Some(true) } else { attr_check(attrs.drop_first(), name, value) },
                    }
                } else {
                    attr_check(attrs.drop_first(), name, value)
                },
            },
        }
    }
}

/// Where the reading of a stream description stands.
#[verifier::ext_equal]
pub struct UrlScan {
    /// Inside a matching `<url>` element.
    pub in_url: bool,
    /// Inside a `<playlist_create_url>` element.
    pub in_playlist: bool,
    /// The URLs found so far, in document order.
    pub urls: Seq<Seq<char>>,
}

pub open spec fn url_scan_start() -> UrlScan {
    UrlScan { in_url: false, in_playlist: false, urls: Seq::empty() }
}

/// One event of the stream description; `None` where the reading cannot go
/// on. A `<url>` opening whose flags do not match leaves the state as it was.
pub open spec fn url_scan_step(scan: UrlScan, event: SpecXmlEvent, timefree: bool, areafree: bool) -> Option<UrlScan> {
    match event {
        SpecXmlEvent::Start { name, attrs } => if name == Some("url"@) {
            match (attr_check(attrs, "timefree"@, "1"@), attr_check(attrs, "areafree"@, "1"@)) {
                (Some(tf), Some(af)) => Some(
                    if tf == timefree && af == areafree { UrlScan { in_url: true, ..scan } } else { scan },
                ),
                _ => None,
            }
        } else if name == Some("playlist_create_url"@) {
            Some(UrlScan { in_playlist: true, ..scan })
        } else {
            Some(scan)
        },
        SpecXmlEvent::End { name } => if name == Some("url"@) {
            Some(UrlScan { in_url: false, ..scan })
        } else if name == Some("playlist_create_url"@) {
            Some(UrlScan { in_playlist: false, ..scan })
        } else {
            Some(scan)
        },
        SpecXmlEvent::Text { text } => if scan.in_url && scan.in_playlist {
            match text {
                None => None,
                Some(t) => Some(UrlScan { urls: scan.urls.push(t), ..scan }),
            }
        } else {
            Some(scan)
        },
        _ => Some(scan),
    }
}

pub open spec fn url_scan(scan: UrlScan, events: Seq<SpecXmlEvent>, timefree: bool, areafree: bool) -> Option<UrlScan>
    decreases events.len(),
{
    if events.len() == 0 || events[0] is Eof {
        Some(scan)
    } else {
        match url_scan_step(scan, events[0], timefree, areafree) {
            None => None,
            Some(next) => url_scan(next, events.drop_first(), timefree, areafree),
        }
    }
}

/// The playlist URLs that a stream description's events list for the
/// flags, or `None` where the reading cannot go on.
pub open spec fn urls_of(events: Seq<SpecXmlEvent>, timefree: bool, areafree: bool) -> Option<Seq<Seq<char>>> {
    match url_scan(url_scan_start(), events, timefree, areafree) {
        Some(scan) => Some(scan.urls),
        None => None,
    }
}

pub proof fn lemma_url_scan_before_eof(scan: UrlScan, events: Seq<SpecXmlEvent>, timefree: bool, areafree: bool)
    ensures
        url_scan(scan, events_before_eof(events), timefree, areafree) == url_scan(scan, events, timefree, areafree),
    decreases events.len(),
{
    if events.len() == 0 || events[0] is Eof {
    } else {
        let rest = events_before_eof(events.drop_first());
        assert((seq![events[0]] + rest).drop_first() =~= rest);
        match url_scan_step(scan, events[0], timefree, areafree) {
            None => {},
            Some(next) => lemma_url_scan_before_eof(next, events.drop_first(), timefree, areafree),
        }
    }
}

proof fn lemma_url_scan_texts(scan: UrlScan, seen: Seq<SpecXmlEvent>, events: Seq<SpecXmlEvent>, timefree: bool, areafree: bool)
    requires
        forall|k: int| 0 <= k < scan.urls.len() ==> has_text(seen, #[trigger] scan.urls[k]),
    ensures
        url_scan(scan, events, timefree, areafree) matches Some(done) ==> forall|k: int|
            0 <= k < done.urls.len() ==> has_text(seen + events, #[trigger] done.urls[k]),
    decreases events.len(),
{
    if events.len() == 0 || events[0] is Eof {
        assert forall|k: int| 0 <= k < scan.urls.len() implies has_text(seen + events, #[trigger] scan.urls[k]) by {
            lemma_has_text_extend(seen, events, scan.urls[k]);
        }
    } else {
        match url_scan_step(scan, events[0], timefree, areafree) {
            None => {},
            Some(next) => {
                let seen2 = seen.push(events[0]);
                assert forall|k: int| 0 <= k < next.urls.len() implies has_text(seen2, #[trigger] next.urls[k]) by {
                    if k < scan.urls.len() {
                        lemma_has_text_extend(seen, seq![events[0]], scan.urls[k]);
                        assert(seen + seq![events[0]] =~= seen2);
                    } else {
                        assert(seen2[seen.len() as int] == events[0]);
                    }
                }
                lemma_url_scan_texts(next, seen2, events.drop_first(), timefree, areafree);
                assert(seen2 + events.drop_first() =~= seen + events);
            },
        }
    }
}

/// Every playlist URL read from a stream description is text of the document.
pub proof fn lemma_urls_are_document_texts(events: Seq<SpecXmlEvent>, timefree: bool, areafree: bool)
    ensures
        urls_of(events, timefree, areafree) matches Some(urls) ==> forall|k: int|
            0 <= k < urls.len() ==> has_text(events, #[trigger] urls[k]),
{
    lemma_url_scan_texts(url_scan_start(), Seq::empty(), events, timefree, areafree);
    assert(Seq::<SpecXmlEvent>::empty() + events =~= events);
}

/// Reading events in two parts: the second part goes on from where the first ended.
proof fn lemma_url_scan_split(scan: UrlScan, first: Seq<SpecXmlEvent>, second: Seq<SpecXmlEvent>, timefree: bool, areafree: bool)
    requires
        no_eof(first),
    ensures
        url_scan(scan, first + second, timefree, areafree) == match url_scan(scan, first, timefree, areafree) {
            Some(mid) => url_scan(mid, second, timefree, areafree),
            None => None,
        },
    decreases first.len(),
{
    if first.len() > 0 {
        assert(!(first[0] is Eof));
        assert((first + second)[0] == first[0]);
        assert((first + second).drop_first() =~= first.drop_first() + second);
        match url_scan_step(scan, first[0], timefree, areafree) {
            None => {},
            Some(next) => {
                assert forall|i: int| 0 <= i < first.drop_first().len() implies !(#[trigger] first.drop_first()[i] is Eof) by {
                    assert(first.drop_first()[i] == first[i + 1]);
                }
                lemma_url_scan_split(next, first.drop_first(), second, timefree, areafree);
            },
        }
    } else {
        assert(first + second =~= second);
    }
}

/// Two readings that differ only in the URLs already found, `found` more
/// in the first.
pub open spec fn url_scans_alike(a: UrlScan, b: UrlScan, found: Seq<Seq<char>>) -> bool {
    &&& a.in_url == b.in_url
    &&& a.in_playlist == b.in_playlist
    &&& a.urls == found + b.urls
}

proof fn lemma_url_scans_alike(a: UrlScan, b: UrlScan, found: Seq<Seq<char>>, events: Seq<SpecXmlEvent>, timefree: bool, areafree: bool)
    requires
        url_scans_alike(a, b, found),
    ensures
        url_scan(a, events, timefree, areafree) is Some == url_scan(b, events, timefree, areafree) is Some,
        url_scan(a, events, timefree, areafree) is Some ==> url_scans_alike(
            url_scan(a, events, timefree, areafree).unwrap(), url_scan(b, events, timefree, areafree).unwrap(), found),
    decreases events.len(),
{
    if events.len() > 0 && !(events[0] is Eof) {
        let na = url_scan_step(a, events[0], timefree, areafree);
        let nb = url_scan_step(b, events[0], timefree, areafree);
        assert(na is Some == nb is Some);
        if na is Some {
            if let SpecXmlEvent::Text { text } = events[0] {
                if a.in_url && a.in_playlist && text is Some {
                    assert(found + b.urls.push(text.unwrap()) =~= (found + b.urls).push(text.unwrap()));
                }
            }
            assert(url_scans_alike(na.unwrap(), nb.unwrap(), found));
            lemma_url_scans_alike(na.unwrap(), nb.unwrap(), found, events.drop_first(), timefree, areafree);
        }
    }
}

/// Two runs of elements under one root read as the two read apart, one
/// after the other: for a root `name` other than `url` and
/// `playlist_create_url`, where `first` does not end inside a matching
/// `<url>` or a `<playlist_create_url>` element and neither part holds an
/// end of document, the URLs of `<name>first second</name>` for the flags
/// are those of `<name>first</name>` followed by those of
/// `<name>second</name>`, and the reading goes through only where both do.
pub proof fn lemma_urls_join(name: Seq<char>, attrs: Seq<SpecXmlAttr>, first: Seq<SpecXmlEvent>, second: Seq<SpecXmlEvent>, timefree: bool, areafree: bool)
    requires
        name != "url"@,
        name != "playlist_create_url"@,
        no_eof(first),
        no_eof(second),
        url_scan(url_scan_start(), seq![SpecXmlEvent::Start { name: Some(name), attrs }] + first, timefree, areafree) matches Some(mid)
            ==> !mid.in_url && !mid.in_playlist,
    ensures
        urls_of(wrapped(name, attrs, first + second), timefree, areafree)
            == joined(urls_of(wrapped(name, attrs, first), timefree, areafree), urls_of(wrapped(name, attrs, second), timefree, areafree)),
{
    let open = seq![SpecXmlEvent::Start { name: Some(name), attrs }];
    let close = seq![SpecXmlEvent::End { name: Some(name) }];
    let start = url_scan_start();
    assert(no_eof(open));
    assert(no_eof(open + first)) by {
        assert forall|i: int| 0 <= i < (open + first).len() implies !(#[trigger] (open + first)[i] is Eof) by {
            if i > 0 {
                assert((open + first)[i] == first[i - 1]);
            }
        }
    }
    assert(wrapped(name, attrs, first + second) =~= (open + first) + (second + close));
    assert(wrapped(name, attrs, first) =~= (open + first) + close);
    assert(wrapped(name, attrs, second) =~= open + (second + close));
    lemma_url_scan_split(start, open + first, second + close, timefree, areafree);
    lemma_url_scan_split(start, open + first, close, timefree, areafree);
    lemma_url_scan_split(start, open, second + close, timefree, areafree);
    assert(url_scan(start, open, timefree, areafree) == Some(start)) by {
        reveal_with_fuel(url_scan, 2);
        assert(open.drop_first() =~= Seq::<SpecXmlEvent>::empty());
    }
    match url_scan(start, open + first, timefree, areafree) {
        None => {},
        Some(mid) => {
            assert(url_scan(mid, close, timefree, areafree) == Some(mid)) by {
                reveal_with_fuel(url_scan, 2);
                assert(close.drop_first() =~= Seq::<SpecXmlEvent>::empty());
            }
            assert(url_scans_alike(mid, start, mid.urls)) by {
                assert(mid.urls =~= mid.urls + Seq::<Seq<char>>::empty());
            }
            lemma_url_scans_alike(mid, start, mid.urls, second + close, timefree, areafree);
        },
    }
}

/// [`lemma_urls_join`] for documents: where the documents `joint`, `left`
/// and `right` read as `<name>first second</name>`, `<name>first</name>` and
/// `<name>second</name>`, what [`to_urls_map`] and [`try_to_urls_map`] read
/// from `joint` is what they read from `left` followed by what they read
/// from `right`.
pub proof fn lemma_url_documents_join(joint: Seq<char>, left: Seq<char>, right: Seq<char>, name: Seq<char>, attrs: Seq<SpecXmlAttr>, first: Seq<SpecXmlEvent>, second: Seq<SpecXmlEvent>, timefree: bool, areafree: bool)
    requires
        xml_events(joint) == wrapped(name, attrs, first + second),
        xml_events(left) == wrapped(name, attrs, first),
        xml_events(right) == wrapped(name, attrs, second),
        name != "url"@,
        name != "playlist_create_url"@,
        no_eof(first),
        no_eof(second),
        url_scan(url_scan_start(), seq![SpecXmlEvent::Start { name: Some(name), attrs }] + first, timefree, areafree) matches Some(mid)
            ==> !mid.in_url && !mid.in_playlist,
    ensures
        urls_of(xml_events(joint), timefree, areafree)
            == joined(urls_of(xml_events(left), timefree, areafree), urls_of(xml_events(right), timefree, areafree)),
{
    lemma_urls_join(name, attrs, first, second, timefree, areafree);
}

/// Whether the attributes hold `attr_name` with the value `attr_value`
/// (see [`attr_check`]); `None` where an attribute met first cannot be read.
pub fn check_attr(attrs: &Vec<XmlAttr>, attr_name: &str, attr_value: &str) -> (found: Option<bool>)
    ensures
        found == attr_check(attrs_view(attrs@), attr_name@, attr_value@),
{
    let mut i: usize = 0;
    assert(attrs_view(attrs@).skip(0) =~= attrs_view(attrs@));
    while i < attrs.len()
        invariant
            i <= attrs@.len(),
            attr_check(attrs_view(attrs@), attr_name@, attr_value@)
                == attr_check(attrs_view(attrs@).skip(i as int), attr_name@, attr_value@),
        decreases attrs@.len() - i,
    {
        let ghost rest = attrs_view(attrs@).skip(i as int);
        assert(rest[0] == attrs@[i as int]@);
        assert(rest.drop_first() =~= attrs_view(attrs@).skip(i + 1));
        match &attrs[i] {
            XmlAttr::Malformed => return None,
            XmlAttr::Attr { key, value } => match key {
                None => return None,
                Some(k) => if same_text(k.as_str(), attr_name) {
                    match value {
                        None => return None,
                        Some(v) => if same_text(v.as_str(), attr_value) {
                            return Some(true);
                        },
                    }
                },
            },
        }
        i = i + 1;
    }
    Some(false)
}

/// The reading state of a stream description.
pub struct UrlScanner {
    in_url: bool,
    in_playlist: bool,
    urls: Vec<String>,
}

impl View for UrlScanner {
    type V = UrlScan;

    closed spec fn view(&self) -> UrlScan {
        UrlScan { in_url: self.in_url, in_playlist: self.in_playlist, urls: self.urls.deep_view() }
    }
}

fn name_is(name: &Option<String>, expected: &str) -> (is: bool)
    ensures
        is == (name.deep_view() == Some(expected@)),
{
    match name {
        Some(n) => same_text(n.as_str(), expected),
        None => false,
    }
}

impl UrlScanner {
    pub fn new() -> (scanner: Self)
        ensures
            scanner@ == url_scan_start(),
    {
        let scanner = UrlScanner { in_url: false, in_playlist: false, urls: Vec::new() };
        assert(scanner@.urls =~= Seq::<Seq<char>>::empty());
        scanner
    }

    /// Takes one event; `false`, with the state unchanged, where the reading cannot go on.
    pub fn step(&mut self, event: &XmlEvent, timefree: bool, areafree: bool) -> (ok: bool)
        ensures
            ok == url_scan_step(old(self)@, event@, timefree, areafree) is Some,
            ok ==> final(self)@ == url_scan_step(old(self)@, event@, timefree, areafree).unwrap(),
            !ok ==> final(self)@ == old(self)@,
    {
        match event {
            XmlEvent::Start { name, attrs } => {
                if name_is(name, "url") {
                    match (check_attr(attrs, "timefree", "1"), check_attr(attrs, "areafree", "1")) {
                        (Some(tf), Some(af)) => {
                            if tf == timefree && af == areafree {
                                self.in_url = true;
                            }
                            true
                        },
                        _ => false,
                    }
                } else {
                    if name_is(name, "playlist_create_url") {
                        self.in_playlist = true;
                    }
                    true
                }
            },
            XmlEvent::End { name } => {
                if name_is(name, "url") {
                    self.in_url = false;
                } else if name_is(name, "playlist_create_url") {
                    self.in_playlist = false;
                }
                true
            },
            XmlEvent::Text { text } => {
                if self.in_url && self.in_playlist {
                    match text {
                        None => false,
                        Some(t) => {
                            let ghost before = self.urls@;
                            self.urls.push(t.clone());
                            assert(self.urls.deep_view() =~= before.map_values(|s: String| s@).push(t@));
                            true
                        },
                    }
                } else {
                    true
                }
            },
            _ => true,
        }
    }

    pub fn into_urls(self) -> (urls: Vec<String>)
        ensures
            urls.deep_view() == self@.urls,
    {
        self.urls
    }
}

/// The playlist URLs that the events list for the flags, up to the first
/// end of document; `None` where the reading cannot go on.
pub fn scan_urls(events: &Vec<XmlEvent>, timefree: bool, areafree: bool) -> (urls: Option<Vec<String>>)
    ensures
        match urls {
            Some(u) => urls_of(events_view(events@), timefree, areafree) == Some(u.deep_view()),
            None => urls_of(events_view(events@), timefree, areafree) is None,
        },
{
    let mut scanner = UrlScanner::new();
    let mut i: usize = 0;
    assert(events_view(events@).skip(0) =~= events_view(events@));
    while i < events.len()
        invariant
            i <= events@.len(),
            url_scan(url_scan_start(), events_view(events@), timefree, areafree)
                == url_scan(scanner@, events_view(events@).skip(i as int), timefree, areafree),
        decreases events@.len() - i,
    {
        let ghost rest = events_view(events@).skip(i as int);
        assert(rest[0] == events@[i as int]@);
        if let XmlEvent::Eof = &events[i] {
            return Some(scanner.into_urls());
        }
        if !scanner.step(&events[i], timefree, areafree) {
            return None;
        }
        assert(rest.drop_first() =~= events_view(events@).skip(i + 1));
        i = i + 1;
    }
    Some(scanner.into_urls())
}

/// Reads the stream description `contents` for the flags. Documents on
/// which the reading cannot go on are left out by `requires`.
pub(crate) fn to_urls_map(contents: &String, timefree: bool, areafree: bool) -> (urls: Vec<String>)
    requires
        urls_of(xml_events(contents@), timefree, areafree) is Some,
    ensures
        urls_of(xml_events(contents@), timefree, areafree) == Some(urls.deep_view()),
{
    match try_to_urls_map(contents, timefree, areafree) {
        Some(urls) => urls,
        None => Vec::new(),
    }
}

/// Reads the stream description `contents` for the flags, or `None` where
/// the reading cannot go on.
pub fn try_to_urls_map(contents: &String, timefree: bool, areafree: bool) -> (urls: Option<Vec<String>>)
    ensures
        match urls {
            Some(u) => urls_of(xml_events(contents@), timefree, areafree) == Some(u.deep_view()),
            None => urls_of(xml_events(contents@), timefree, areafree) is None,
        },
{
    let events = read_xml_events(contents.as_str());
    proof {
        lemma_url_scan_before_eof(url_scan_start(), xml_events(contents@), timefree, areafree);
    }
    scan_urls(&events, timefree, areafree)
}

} // verus!

verus! {

/// The reading of a stream description that keeps, with each playlist
/// URL, the flags of the `<url>` element it stands in.
#[verifier::ext_equal]
pub struct TaggedUrlScan {
    /// The flags (time-free, area-free) of the open `<url>` element.
    pub url_flags: Option<(bool, bool)>,
    pub in_playlist: bool,
    /// The URLs found so far with their flags, in document order.
    pub items: Seq<(bool, bool, Seq<char>)>,
}

pub open spec fn tagged_scan_start() -> TaggedUrlScan {
    TaggedUrlScan { url_flags: None, in_playlist: false, items: Seq::empty() }
}

/// One event; `None` where the reading cannot go on, and also where a
/// `<url>` opens inside another.
pub open spec fn tagged_scan_step(scan: TaggedUrlScan, event: SpecXmlEvent) -> Option<TaggedUrlScan> {
    match event {
        SpecXmlEvent::Start { name, attrs } => if name == Some("url"@) {
            if scan.url_flags is Some {
                None
            } else {
                match (attr_check(attrs, "timefree"@, "1"@), attr_check(attrs, "areafree"@, "1"@)) {
                    (Some(tf), Some(af)) => Some(TaggedUrlScan { url_flags: Some((tf, af)), ..scan }),
                    _ => None,
                }
            }
        } else if name == Some("playlist_create_url"@) {
            Some(TaggedUrlScan { in_playlist: true, ..scan })
        } else {
            Some(scan)
        },
        SpecXmlEvent::End { name } => if name == Some("url"@) {
            Some(TaggedUrlScan { url_flags: None, ..scan })
        } else if name == Some("playlist_create_url"@) {
            Some(TaggedUrlScan { in_playlist: false, ..scan })
        } else {
            Some(scan)
        },
        SpecXmlEvent::Text { text } => if scan.url_flags is Some && scan.in_playlist {
            match text {
                None => None,
                Some(t) => Some(TaggedUrlScan {
                    items: scan.items.push((scan.url_flags.unwrap().0, scan.url_flags.unwrap().1, t)),
                    ..scan
                }),
            }
        } else {
            Some(scan)
        },
        _ => Some(scan),
    }
}

pub open spec fn tagged_scan(scan: TaggedUrlScan, events: Seq<SpecXmlEvent>) -> Option<TaggedUrlScan>
    decreases events.len(),
{
    if events.len() == 0 || events[0] is Eof {
        Some(scan)
    } else {
        match tagged_scan_step(scan, events[0]) {
            None => None,
            Some(next) => tagged_scan(next, events.drop_first()),
        }
    }
}

/// Every playlist URL inside a `<url>` element, with that element's flags;
/// `None` where the reading cannot go on or a `<url>` opens inside another.
pub open spec fn tagged_urls(events: Seq<SpecXmlEvent>) -> Option<Seq<(bool, bool, Seq<char>)>> {
    match tagged_scan(tagged_scan_start(), events) {
        Some(scan) => Some(scan.items),
        None => None,
    }
}

/// The URLs of `items` that stand under the flags, in order.
pub open spec fn select_urls(items: Seq<(bool, bool, Seq<char>)>, timefree: bool, areafree: bool) -> Seq<Seq<char>>
    decreases items.len(),
{
    if items.len() == 0 {
        Seq::empty()
    } else {
        let rest = select_urls(items.drop_last(), timefree, areafree);
        if items.last().0 == timefree && items.last().1 == areafree { rest.push(items.last().2) } else { rest }
    }
}

/// The URLs of `items`, whatever their flags.
pub open spec fn item_urls(items: Seq<(bool, bool, Seq<char>)>) -> Seq<Seq<char>> {
    items.map_values(|i: (bool, bool, Seq<char>)| i.2)
}

proof fn lemma_select_push(items: Seq<(bool, bool, Seq<char>)>, item: (bool, bool, Seq<char>), timefree: bool, areafree: bool)
    ensures
        select_urls(items.push(item), timefree, areafree) == if item.0 == timefree && item.1 == areafree {
            select_urls(items, timefree, areafree).push(item.2)
        } else {
            select_urls(items, timefree, areafree)
        },
{
    assert(items.push(item).drop_last() =~= items);
}

/// The two readings agree: the flag-free one is the tagged one seen
/// through the flags asked for.
pub open spec fn scans_agree(tagged: TaggedUrlScan, plain: UrlScan, timefree: bool, areafree: bool) -> bool {
    &&& plain.in_url == (tagged.url_flags == Some((timefree, areafree)))
    &&& plain.in_playlist == tagged.in_playlist
    &&& plain.urls == select_urls(tagged.items, timefree, areafree)
}

proof fn lemma_scans_agree(tagged: TaggedUrlScan, plain: UrlScan, events: Seq<SpecXmlEvent>, timefree: bool, areafree: bool)
    requires
        scans_agree(tagged, plain, timefree, areafree),
    ensures
        tagged_scan(tagged, events) matches Some(t) ==> (url_scan(plain, events, timefree, areafree) matches Some(p)
            && scans_agree(t, p, timefree, areafree)),
    decreases events.len(),
{
    if events.len() == 0 || events[0] is Eof {
    } else {
        match tagged_scan_step(tagged, events[0]) {
            None => {},
            Some(t2) => {
                let p2 = url_scan_step(plain, events[0], timefree, areafree).unwrap();
                assert(url_scan_step(plain, events[0], timefree, areafree) is Some);
                if let SpecXmlEvent::Text { text } = events[0] {
                    if tagged.url_flags is Some && tagged.in_playlist {
                        lemma_select_push(tagged.items, (tagged.url_flags.unwrap().0, tagged.url_flags.unwrap().1, text.unwrap()), timefree, areafree);
                    }
                }
                assert(scans_agree(t2, p2, timefree, areafree));
                lemma_scans_agree(t2, p2, events.drop_first(), timefree, areafree);
            },
        }
    }
}

/// Where no `<url>` opens inside another, the playlist URLs read for any
/// flags are exactly those that stand under `<url>` elements with these
/// flags, in document order.
pub proof fn lemma_urls_by_flags(events: Seq<SpecXmlEvent>, timefree: bool, areafree: bool)
    requires
        tagged_urls(events) is Some,
    ensures
        urls_of(events, timefree, areafree) == Some(select_urls(tagged_urls(events).unwrap(), timefree, areafree)),
{
    assert(select_urls(Seq::empty(), timefree, areafree) =~= Seq::<Seq<char>>::empty());
    lemma_scans_agree(tagged_scan_start(), url_scan_start(), events, timefree, areafree);
}

/// Whether `part` is `whole` with some elements left out, the others in order.
pub open spec fn is_subsequence(part: Seq<Seq<char>>, whole: Seq<Seq<char>>) -> bool
    decreases whole.len(),
{
    if part.len() == 0 {
        true
    } else if whole.len() == 0 {
        false
    } else if part.last() == whole.last() {
        is_subsequence(part.drop_last(), whole.drop_last())
    } else {
        is_subsequence(part, whole.drop_last())
    }
}

/// A subsequence stays one when an element is added to the whole.
proof fn lemma_subsequence_extend(part: Seq<Seq<char>>, whole: Seq<Seq<char>>, x: Seq<char>)
    requires
        is_subsequence(part, whole),
    ensures
        is_subsequence(part, whole.push(x)),
    decreases whole.len(), 1int,
{
    assert(whole.push(x).drop_last() =~= whole);
    if part.len() > 0 && part.last() == x {
        lemma_subsequence_drop(part, whole);
    }
}

/// A subsequence stays one when its last element is dropped.
proof fn lemma_subsequence_drop(part: Seq<Seq<char>>, whole: Seq<Seq<char>>)
    requires
        part.len() > 0,
        is_subsequence(part, whole),
    ensures
        is_subsequence(part.drop_last(), whole),
    decreases whole.len(), 0int,
{
    let w = whole.drop_last();
    assert(w.push(whole.last()) =~= whole);
    if part.last() == whole.last() {
        lemma_subsequence_extend(part.drop_last(), w, whole.last());
    } else {
        lemma_subsequence_drop(part, w);
        lemma_subsequence_extend(part.drop_last(), w, whole.last());
    }
}

/// The URLs under given flags are the document's URLs with the others left out.
pub proof fn lemma_select_is_subsequence(items: Seq<(bool, bool, Seq<char>)>, timefree: bool, areafree: bool)
    ensures
        is_subsequence(select_urls(items, timefree, areafree), item_urls(items)),
    decreases items.len(),
{
    if items.len() > 0 {
        let rest = items.drop_last();
        let item = items.last();
        lemma_select_is_subsequence(rest, timefree, areafree);
        assert(item_urls(items) =~= item_urls(rest).push(item.2));
        let rest_sel = select_urls(rest, timefree, areafree);
        if item.0 == timefree && item.1 == areafree {
            assert(rest_sel.push(item.2).drop_last() =~= rest_sel);
            assert(item_urls(items).drop_last() =~= item_urls(rest));
        } else {
            lemma_subsequence_extend(rest_sel, item_urls(rest), item.2);
        }
    }
}

proof fn lemma_select_partition(items: Seq<(bool, bool, Seq<char>)>)
    ensures
        select_urls(items, false, false).to_multiset().add(select_urls(items, false, true).to_multiset()).add(
            select_urls(items, true, false).to_multiset()).add(select_urls(items, true, true).to_multiset())
            =~= item_urls(items).to_multiset(),
    decreases items.len(),
{
    broadcast use vstd::seq_lib::group_to_multiset_ensures;
    if items.len() == 0 {
        assert(item_urls(items) =~= Seq::<Seq<char>>::empty());
    } else {
        let rest = items.drop_last();
        let item = items.last();
        assert(rest.push(item) =~= items);
        lemma_select_partition(rest);
        lemma_select_push(rest, item, false, false);
        lemma_select_push(rest, item, false, true);
        lemma_select_push(rest, item, true, false);
        lemma_select_push(rest, item, true, true);
        assert(item_urls(items) =~= item_urls(rest).push(item.2));
    }
}

/// Where no `<url>` opens inside another, every playlist URL under a
/// `<url>` element is read for exactly one choice of the two flags: the
/// four readings together hold the same URLs, as often, as the document.
pub proof fn lemma_url_flags_partition(events: Seq<SpecXmlEvent>)
    requires
        tagged_urls(events) is Some,
    ensures
        ({
            let all = item_urls(tagged_urls(events).unwrap());
            &&& urls_of(events, false, false) is Some
            &&& urls_of(events, false, true) is Some
            &&& urls_of(events, true, false) is Some
            &&& urls_of(events, true, true) is Some
            &&& is_subsequence(urls_of(events, false, false).unwrap(), all)
            &&& is_subsequence(urls_of(events, false, true).unwrap(), all)
            &&& is_subsequence(urls_of(events, true, false).unwrap(), all)
            &&& is_subsequence(urls_of(events, true, true).unwrap(), all)
            &&& urls_of(events, false, false).unwrap().to_multiset()
                .add(urls_of(events, false, true).unwrap().to_multiset())
                .add(urls_of(events, true, false).unwrap().to_multiset())
                .add(urls_of(events, true, true).unwrap().to_multiset()) == all.to_multiset()
        }),
{
    lemma_urls_by_flags(events, false, false);
    lemma_urls_by_flags(events, false, true);
    lemma_urls_by_flags(events, true, false);
    lemma_urls_by_flags(events, true, true);
    lemma_select_partition(tagged_urls(events).unwrap());
    lemma_select_is_subsequence(tagged_urls(events).unwrap(), false, false);
    lemma_select_is_subsequence(tagged_urls(events).unwrap(), false, true);
    lemma_select_is_subsequence(tagged_urls(events).unwrap(), true, false);
    lemma_select_is_subsequence(tagged_urls(events).unwrap(), true, true);
}

} // verus!
