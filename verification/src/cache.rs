//! A memoizing cache for parsed query documents.
//!
//! The cache maps exact query text to the document the parser produced for
//! it. Lookup keys are byte-exact: no normalization of whitespace or case is
//! performed, so two texts are the same key exactly when their character
//! sequences are equal. A miss parses and, on success, stores the document;
//! a failed parse is never stored, so the next call with the same text
//! parses again. The narrow class of texts the parsing boundary refuses (a
//! block string opener together with non-ASCII whitespace) is likewise never
//! parsed and never stored.

use vstd::prelude::*;

use crate::parser::ParseFailure;
use crate::parser::ParsedDocument;
use crate::parser::parse_result;
use crate::parser::unsupported_text;
use crate::parser::unsupported_text_message;

verus! {

/// One stored association of a query text with its parsed document.
struct CacheEntry {
    query: String,
    document: ParsedDocument,
}

/// The entries, as the map from each stored text to its document.
spec fn entries_map(s: Seq<CacheEntry>) -> Map<Seq<char>, ParsedDocument>
    decreases s.len(),
{
    if s.len() == 0 {
        Map::empty()
    } else {
        entries_map(s.drop_last()).insert(s.last().query@, s.last().document)
    }
}

/// No two entries share a key.
spec fn entry_keys_distinct(s: Seq<CacheEntry>) -> bool {
    forall|i: int, j: int|
        0 <= i < j < s.len() ==> s[i].query@ != s[j].query@
}

/// A key is in the map exactly when some entry holds it.
proof fn lemma_entries_map_contains(s: Seq<CacheEntry>, k: Seq<char>)
    ensures
        entries_map(s).contains_key(k) <==> (exists|i: int| 0 <= i < s.len() && s[i].query@ == k),
    decreases s.len(),
{
    if s.len() > 0 {
        lemma_entries_map_contains(s.drop_last(), k);
        if s.last().query@ != k && entries_map(s).contains_key(k) {
            let i = choose|i: int| 0 <= i < s.drop_last().len() && s.drop_last()[i].query@ == k;
            assert(s[i].query@ == k);
        }
        if exists|i: int| 0 <= i < s.len() && s[i].query@ == k {
            let i = choose|i: int| 0 <= i < s.len() && s[i].query@ == k;
            if i < s.len() - 1 {
                assert(s.drop_last()[i].query@ == k);
            }
        }
    }
}

/// With distinct keys, the map sends each entry's key to that entry's document.
proof fn lemma_entries_map_at(s: Seq<CacheEntry>, i: int)
    requires
        entry_keys_distinct(s),
        0 <= i < s.len(),
    ensures
        entries_map(s).contains_key(s[i].query@),
        entries_map(s)[s[i].query@] == s[i].document,
    decreases s.len(),
{
    if i == s.len() - 1 {
    } else {
        assert(entry_keys_distinct(s.drop_last()));
        lemma_entries_map_at(s.drop_last(), i);
        assert(s.drop_last()[i] == s[i]);
        assert(s[i].query@ != s.last().query@);
    }
}

/// With distinct keys, the map has exactly one key per entry.
proof fn lemma_entries_map_len(s: Seq<CacheEntry>)
    requires
        entry_keys_distinct(s),
    ensures
        entries_map(s).dom().finite(),
        entries_map(s).dom().len() == s.len(),
    decreases s.len(),
{
    if s.len() == 0 {
        assert(entries_map(s).dom() =~= Set::<Seq<char>>::empty());
    } else {
        assert(entry_keys_distinct(s.drop_last()));
        lemma_entries_map_len(s.drop_last());
        lemma_entries_map_contains(s.drop_last(), s.last().query@);
        assert(forall|i: int| 0 <= i < s.drop_last().len() ==> s.drop_last()[i].query@ != s.last().query@);
        assert(!entries_map(s.drop_last()).contains_key(s.last().query@));
    }
}

/// A memoizing store of parsed documents, keyed by exact query text.
///
/// Its view is the map from stored text to stored document; `parse_invocations`
/// counts how often the underlying parser has been invoked (saturating at the
/// counter's capacity).
pub struct MemoizingCache {
    entries: Vec<CacheEntry>,
    parses: u64,
}

impl MemoizingCache {
    /// The association this cache currently stores.
    pub closed spec fn view(&self) -> Map<Seq<char>, ParsedDocument> {
        entries_map(self.entries@)
    }

    /// How many times the underlying parser has been invoked on this
    /// cache's behalf: a hit and a refused text cost no invocation, a miss
    /// costs one. Every operation of this module routes its parses through
    /// `get_or_parse`, so all of them are counted here. Saturates at the
    /// counter's capacity.
    pub closed spec fn parse_invocations(&self) -> u64 {
        self.parses
    }

    /// The cache's internal discipline: one entry per key, and every stored
    /// document is exactly what parsing its key produces. Established at
    /// construction and preserved by every operation.
    pub closed spec fn wf(&self) -> bool {
        &&& entry_keys_distinct(self.entries@)
        &&& cache_consistent(self.view())
    }

    /// A fresh, empty cache that has not invoked the parser.
    pub fn new() -> (c: Self)
        ensures
            c.wf(),
            c@ == Map::<Seq<char>, ParsedDocument>::empty(),
            c.parse_invocations() == 0,
    {
        let c = MemoizingCache { entries: Vec::new(), parses: 0 };
        proof {
            assert(c@ =~= Map::<Seq<char>, ParsedDocument>::empty());
        }
        c
    }

    /// The position of the entry whose key is exactly `query`, if any.
    fn find_index(&self, query: &String) -> (r: Option<usize>)
        ensures
            match r {
                Some(i) => i < self.entries@.len() && self.entries@[i as int].query@ == query@,
                None => forall|i: int|
                    0 <= i < self.entries@.len() ==> self.entries@[i].query@ != query@,
            },
    {
        let n = self.entries.len();
        let mut i: usize = 0;
        while i < n
            invariant
                n == self.entries@.len(),
                i <= n,
                forall|j: int| 0 <= j < i ==> self.entries@[j].query@ != query@,
            decreases n - i,
        {
            if self.entries[i].query == *query {
                return Some(i);
            }
            i = i + 1;
        }
        None
    }

    /// Whether a document is stored for exactly this text.
    pub fn contains_key(&self, query: &str) -> (b: bool)
        ensures
            b == self@.contains_key(query@),
    {
        let owned: String = query.to_owned();
        proof {
            lemma_entries_map_contains(self.entries@, query@);
        }
        match self.find_index(&owned) {
            Some(_) => true,
            None => false,
        }
    }

    /// How many documents are stored.
    pub fn len(&self) -> (n: usize)
        ensures
            self.wf() ==> n == self@.dom().len(),
    {
        proof {
            if self.wf() {
                lemma_entries_map_len(self.entries@);
            }
        }
        self.entries.len()
    }

    /// How many times `get_or_parse` has invoked the underlying parser for
    /// this cache (see `parse_invocations`).
    pub fn parse_count(&self) -> (n: u64)
        ensures
            n == self.parse_invocations(),
    {
        self.parses
    }
}

/// Every stored document is exactly what parsing its key produces: the cache
/// never serves a document that parsing the text fresh would contradict.
pub open spec fn cache_consistent(m: Map<Seq<char>, ParsedDocument>) -> bool {
    forall|k: Seq<char>|
        m.contains_key(k) ==> parse_result(k) == Ok::<ParsedDocument, Seq<char>>(m[k])
}

/// The store after one `get_or_parse` with text `q`: unchanged on a hit, on
/// a refused unsupported text and on a failed parse, and grown by the new
/// document otherwise.
pub open spec fn cache_after(
    m: Map<Seq<char>, ParsedDocument>,
    q: Seq<char>,
) -> Map<Seq<char>, ParsedDocument> {
    if m.contains_key(q) {
        m
    } else if unsupported_text(q) {
        m
    } else {
        match parse_result(q) {
            Ok(d) => m.insert(q, d),
            Err(_) => m,
        }
    }
}

/// What one `get_or_parse` with text `q` returns: the stored document on a
/// hit, the fixed refusal on an unsupported text, and the parser's own
/// outcome otherwise.
pub open spec fn lookup_result(
    m: Map<Seq<char>, ParsedDocument>,
    q: Seq<char>,
) -> Result<ParsedDocument, Seq<char>> {
    if m.contains_key(q) {
        Ok(m[q])
    } else if unsupported_text(q) {
        Err(unsupported_text_message())
    } else {
        parse_result(q)
    }
}

/// The parser-invocation count after one `get_or_parse` with text `q`: a hit
/// and a refused unsupported text invoke the parser not at all, a miss
/// invokes it once (the counter saturates at its capacity).
pub open spec fn parses_after(m: Map<Seq<char>, ParsedDocument>, q: Seq<char>, n: u64) -> u64 {
    if m.contains_key(q) || unsupported_text(q) {
        n
    } else if n < u64::MAX {
        (n + 1) as u64
    } else {
        n
    }
}

impl MemoizingCache {
    /// Returns the document for `query`, parsing only when no entry for that
    /// exact text is stored. On a miss the outcome is the parser's own: a
    /// successful document is stored and returned, a failure is returned and
    /// nothing is stored. An unsupported text (a block string opener
    /// together with non-ASCII whitespace) is refused with the fixed
    /// message, without parsing and without storing.
    pub fn get_or_parse(&mut self, query: &str) -> (r: Result<ParsedDocument, ParseFailure>)
        ensures
            !unsupported_text(query@) && parse_result(query@) is Ok ==> r is Ok,
            !old(self)@.contains_key(query@) && r is Ok ==> Ok::<ParsedDocument, Seq<char>>(
                r->Ok_0,
            ) == parse_result(query@),
            r is Err ==> (
                (unsupported_text(query@) && r->Err_0@ == unsupported_text_message())
                || (parse_result(query@) is Err && r->Err_0@ == parse_result(query@)->Err_0)
            ),
            old(self).wf() ==> {
                &&& final(self).wf()
                &&& final(self)@ == cache_after(old(self)@, query@)
                &&& final(self).parse_invocations() == parses_after(
                    old(self)@,
                    query@,
                    old(self).parse_invocations(),
                )
                &&& match r {
                    Ok(d) => lookup_result(old(self)@, query@) == Ok::<
                        ParsedDocument,
                        Seq<char>,
                    >(d),
                    Err(e) => lookup_result(old(self)@, query@) == Err::<
                        ParsedDocument,
                        Seq<char>,
                    >(e@),
                }
            },
    {
        let owned: String = query.to_owned();
        proof {
            lemma_entries_map_contains(self.entries@, query@);
        }
        match self.find_index(&owned) {
            Some(i) => {
                proof {
                    if old(self).wf() {
                        lemma_entries_map_at(self.entries@, i as int);
                    }
                }
                Ok(self.entries[i].document.clone())
            },
            None => {
                if crate::parser::is_unsupported_text(query) {
                    return Err(ParseFailure::unsupported());
                }
                if self.parses < u64::MAX {
                    self.parses = self.parses + 1;
                }
                match crate::parser::parse_document_text(query) {
                    Ok(d) => {
                        let ghost old_entries = self.entries@;
                        let stored = d.clone();
                        self.entries.push(CacheEntry { query: owned, document: stored });
                        proof {
                            assert(self.entries@.drop_last() =~= old_entries);
                            if old(self).wf() {
                                assert(entry_keys_distinct(self.entries@));
                                assert(self@ =~= cache_after(old(self)@, query@));
                                assert forall|k: Seq<char>| self@.contains_key(k)
                                    implies parse_result(k) == Ok::<ParsedDocument, Seq<char>>(
                                    self@[k],
                                ) by {
                                    if k != query@ {
                                        assert(old(self)@.contains_key(k));
                                    }
                                }
                            }
                        }
                        Ok(d)
                    },
                    Err(e) => Err(e),
                }
            },
        }
    }
}

/// Parses a query text through the cache, for a text known to be
/// syntactically valid: the result is exactly what parsing the text fresh
/// produces, served from the store whenever the same text was seen before.
pub fn cached_parse(cache: &mut MemoizingCache, query: &str) -> (r: ParsedDocument)
    requires
        !unsupported_text(query@),
        parse_result(query@) is Ok,
    ensures
        old(cache).wf() ==> {
            &&& final(cache).wf()
            &&& final(cache)@ == cache_after(old(cache)@, query@)
            &&& final(cache).parse_invocations() == parses_after(
                old(cache)@,
                query@,
                old(cache).parse_invocations(),
            )
            &&& Ok::<ParsedDocument, Seq<char>>(r) == lookup_result(old(cache)@, query@)
            &&& Ok::<ParsedDocument, Seq<char>>(r) == parse_result(query@)
        },
{
    match cache.get_or_parse(query) {
        Ok(d) => d,
        Err(_) => vstd::pervasive::unreached(),
    }
}

/// Serves a text through the cache without any precondition: a stored text
/// is served from the store at once; an unseen text is attempted through
/// `get_or_parse` (so a failing attempt is a counted parser invocation) and
/// handed to `cached_parse` once it is known to be valid, which then serves
/// the freshly stored document. An invalid or refused text returns its
/// failure and leaves the store unchanged.
pub fn try_cached_parse(cache: &mut MemoizingCache, query: &str) -> (r: Result<
    ParsedDocument,
    ParseFailure,
>)
    ensures
        !unsupported_text(query@) && parse_result(query@) is Ok ==> r is Ok,
        r is Err ==> (
            (unsupported_text(query@) && r->Err_0@ == unsupported_text_message())
            || (parse_result(query@) is Err && r->Err_0@ == parse_result(query@)->Err_0)
        ),
        old(cache).wf() ==> {
            &&& final(cache).wf()
            &&& final(cache)@ == cache_after(old(cache)@, query@)
            &&& final(cache).parse_invocations() == parses_after(
                old(cache)@,
                query@,
                old(cache).parse_invocations(),
            )
            &&& match r {
                Ok(d) => lookup_result(old(cache)@, query@) == Ok::<ParsedDocument, Seq<char>>(
                    d,
                ),
                Err(e) => lookup_result(old(cache)@, query@) == Err::<ParsedDocument, Seq<char>>(
                    e@,
                ),
            }
        },
{
    if cache.contains_key(query) {
        cache.get_or_parse(query)
    } else if crate::parser::is_unsupported_text(query) {
        Err(ParseFailure::unsupported())
    } else {
        match cache.get_or_parse(query) {
            Ok(_) => Ok(cached_parse(cache, query)),
            Err(e) => Err(e),
        }
    }
}

/// A hit serves the store: when a document is stored for `q`, a call with
/// `q` returns exactly the stored document, leaves the store unchanged, and
/// does not invoke the parser.
pub proof fn lemma_hit_serves_stored(m: Map<Seq<char>, ParsedDocument>, q: Seq<char>, n: u64)
    requires
        m.contains_key(q),
    ensures
        cache_after(m, q) == m,
        lookup_result(m, q) == Ok::<ParsedDocument, Seq<char>>(m[q]),
        parses_after(m, q, n) == n,
{
}

/// A well-formed cache is consistent: exported so that callers can combine
/// the closed well-formedness predicate with the public consistency
/// predicate that the lemmas below speak of.
pub proof fn lemma_wf_implies_consistent(c: &MemoizingCache)
    requires
        c.wf(),
    ensures
        cache_consistent(c@),
{
}

/// A consistent store holds no entry whose text fails to parse, so an
/// invalid text is always a miss.
pub proof fn lemma_failures_never_stored(m: Map<Seq<char>, ParsedDocument>, q: Seq<char>)
    requires
        cache_consistent(m),
        parse_result(q) is Err,
    ensures
        !m.contains_key(q),
{
}

/// An unsupported text that is not stored is refused without parsing:
/// nothing is stored, the counter does not move, and the fixed refusal
/// message is returned.
pub proof fn lemma_unsupported_text_refused(m: Map<Seq<char>, ParsedDocument>, q: Seq<char>, n: u64)
    requires
        !m.contains_key(q),
        unsupported_text(q),
    ensures
        cache_after(m, q) == m,
        lookup_result(m, q) == Err::<ParsedDocument, Seq<char>>(unsupported_text_message()),
        parses_after(m, q, n) == n,
{
}

/// Miss then hit: on a text not yet stored and syntactically valid, the
/// first call invokes the parser exactly once and stores its document; a
/// second call with the identical text returns the same document, invokes
/// the parser no further time, and changes nothing.
pub proof fn lemma_miss_then_hit(m: Map<Seq<char>, ParsedDocument>, q: Seq<char>, n: u64)
    requires
        !m.contains_key(q),
        !unsupported_text(q),
        parse_result(q) is Ok,
        n < u64::MAX,
    ensures
        lookup_result(m, q) == parse_result(q),
        parses_after(m, q, n) == n + 1,
        cache_after(m, q).contains_key(q),
        lookup_result(cache_after(m, q), q) == lookup_result(m, q),
        cache_after(cache_after(m, q), q) == cache_after(m, q),
        parses_after(cache_after(m, q), q, parses_after(m, q, n)) == n + 1,
{
}

/// A failure is not memoized: on a text not stored and syntactically
/// invalid, a call returns the parser's failure and leaves the store exactly
/// as it was, so a second call with the identical text invokes the parser
/// again and returns the same failure.
pub proof fn lemma_failure_not_memoized(m: Map<Seq<char>, ParsedDocument>, q: Seq<char>, n: u64)
    requires
        !m.contains_key(q),
        !unsupported_text(q),
        parse_result(q) is Err,
        n + 1 < u64::MAX,
    ensures
        cache_after(m, q) == m,
        lookup_result(m, q) == parse_result(q),
        lookup_result(cache_after(m, q), q) == parse_result(q),
        parses_after(m, q, n) == n + 1,
        parses_after(cache_after(m, q), q, parses_after(m, q, n)) == n + 2,
{
}

/// Keys are exact: two distinct texts are distinct keys, so a call with one
/// never makes the other a hit, and the other still costs its own parse.
pub proof fn lemma_distinct_keys_parse_separately(
    m: Map<Seq<char>, ParsedDocument>,
    q1: Seq<char>,
    q2: Seq<char>,
    n: u64,
)
    requires
        q1 != q2,
        !m.contains_key(q2),
        !unsupported_text(q2),
        n < u64::MAX,
    ensures
        !cache_after(m, q1).contains_key(q2),
        parses_after(cache_after(m, q1), q2, n) == n + 1,
        lookup_result(cache_after(m, q1), q2) == parse_result(q2),
{
}

/// A call with one text never alters or evicts the entry of a different
/// text already stored: the other entry stays, with the same document, and a
/// later call with its text is served unchanged.
pub proof fn lemma_non_interference(
    m: Map<Seq<char>, ParsedDocument>,
    q1: Seq<char>,
    q2: Seq<char>,
)
    requires
        q1 != q2,
        m.contains_key(q2),
    ensures
        cache_after(m, q1).contains_key(q2),
        cache_after(m, q1)[q2] == m[q2],
        lookup_result(cache_after(m, q1), q2) == lookup_result(m, q2),
{
}

/// The store's guiding invariant is preserved by every call: if every stored
/// document is what parsing its key produces, the same holds after a call
/// with any text, and a hit therefore returns exactly what parsing the text
/// fresh would.
pub proof fn lemma_consistency_preserved(m: Map<Seq<char>, ParsedDocument>, q: Seq<char>)
    requires
        cache_consistent(m),
    ensures
        cache_consistent(cache_after(m, q)),
        m.contains_key(q) ==> lookup_result(m, q) == parse_result(q),
{
    assert forall|k: Seq<char>| cache_after(m, q).contains_key(k)
        implies parse_result(k) == Ok::<ParsedDocument, Seq<char>>(cache_after(m, q)[k]) by {
        if k != q {
            assert(m.contains_key(k));
        }
    }
}

} // verus!
