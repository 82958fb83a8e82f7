//! Content offered for a selection: a map from MIME type to bytes, built
//! from groups of (bytes, MIME types) where a later group wins a MIME type.
use vstd::prelude::*;
use crate::data::copy_bytes;
use crate::mime::{contains_string, model_str, string_views, AsMimeTypes, MimeModel, MimeType};

verus! {

/// The (MIME type, bytes) pairs of a list of groups, in order.
pub open spec fn flat_pairs(formats: Seq<(Vec<u8>, Vec<String>)>) -> Seq<(Seq<char>, Seq<u8>)>
    decreases formats.len(),
{
    if formats.len() == 0 {
        seq![]
    } else {
        let last = formats.last();
        flat_pairs(formats.drop_last()) + string_views(last.1@).map_values(|m: Seq<char>| (m, last.0@))
    }
}

/// The map that a list of pairs defines: a later pair wins its key.
pub open spec fn content_map(s: Seq<(Seq<char>, Seq<u8>)>) -> Map<Seq<char>, Seq<u8>>
    decreases s.len(),
{
    if s.len() == 0 {
        Map::empty()
    } else {
        content_map(s.drop_last()).insert(s.last().0, s.last().1)
    }
}

/// The map from MIME type to bytes that a list of groups defines.
pub open spec fn formats_map(formats: Seq<(Vec<u8>, Vec<String>)>) -> Map<Seq<char>, Seq<u8>> {
    content_map(flat_pairs(formats))
}

proof fn lemma_content_map_prefix(s: Seq<(Seq<char>, Seq<u8>)>, i: int, k: Seq<char>)
    requires
        0 <= i <= s.len(),
        forall|j: int| i <= j < s.len() ==> #[trigger] s[j].0 != k,
    ensures
        content_map(s).contains_key(k) == content_map(s.subrange(0, i)).contains_key(k),
        content_map(s).contains_key(k) ==> content_map(s)[k] == content_map(s.subrange(0, i))[k],
    decreases s.len(),
{
    if i == s.len() {
        assert(s.subrange(0, i) =~= s);
    } else {
        let d = s.drop_last();
        assert(s[s.len() - 1].0 != k);
        assert forall|j: int| i <= j < d.len() implies #[trigger] d[j].0 != k by {
            assert(d[j] == s[j]);
        }
        lemma_content_map_prefix(d, i, k);
        assert(d.subrange(0, i) =~= s.subrange(0, i));
    }
}

proof fn lemma_content_map_keys(s: Seq<(Seq<char>, Seq<u8>)>, k: Seq<char>)
    ensures
        content_map(s).contains_key(k) <==> exists|j: int| 0 <= j < s.len() && #[trigger] s[j].0 == k,
    decreases s.len(),
{
    if s.len() > 0 {
        let d = s.drop_last();
        lemma_content_map_keys(d, k);
        if content_map(s).contains_key(k) && s.last().0 != k {
            let j = choose|j: int| 0 <= j < d.len() && #[trigger] d[j].0 == k;
            assert(s[j] == d[j]);
        }
        if exists|j: int| 0 <= j < s.len() && #[trigger] s[j].0 == k {
            let j = choose|j: int| 0 <= j < s.len() && #[trigger] s[j].0 == k;
            if j < s.len() - 1 {
                assert(d[j] == s[j]);
            }
        }
    }
}

/// Content offered for one selection.
pub struct SelectionContent {
    /// (MIME type, bytes) pairs; a later pair wins its MIME type.
    pub entries: Vec<(String, Vec<u8>)>,
}

impl SelectionContent {
    /// The pairs as sequences.
    pub open spec fn pairs(&self) -> Seq<(Seq<char>, Seq<u8>)> {
        self.entries@.map_values(|p: (String, Vec<u8>)| (p.0@, p.1@))
    }

    /// The MIME type to bytes map.
    pub open spec fn map(&self) -> Map<Seq<char>, Seq<u8>> {
        content_map(self.pairs())
    }

    /// Content offering nothing.
    pub fn empty() -> (r: SelectionContent)
        ensures
            r.map() == Map::<Seq<char>, Seq<u8>>::empty(),
    {
        let r = SelectionContent { entries: Vec::new() };
        assert(r.pairs().len() == 0);
        r
    }

    /// Flattens groups of (bytes, MIME types); a later group wins a MIME type.
    pub fn from_formats(formats: &Vec<(Vec<u8>, Vec<String>)>) -> (r: SelectionContent)
        ensures
            r.pairs() == flat_pairs(formats@),
            r.map() == formats_map(formats@),
    {
        let mut entries: Vec<(String, Vec<u8>)> = Vec::new();
        let mut i: usize = 0;
        while i < formats.len()
            invariant
                0 <= i <= formats@.len(),
                entries@.map_values(|p: (String, Vec<u8>)| (p.0@, p.1@)) == flat_pairs(formats@.subrange(0, i as int)),
            decreases formats@.len() - i,
        {
            let group = &formats[i];
            let ghost base = entries@.map_values(|p: (String, Vec<u8>)| (p.0@, p.1@));
            let ghost views = string_views(group.1@);
            let mut j: usize = 0;
            while j < group.1.len()
                invariant
                    0 <= j <= group.1@.len(),
                    i < formats@.len(),
                    group == &formats@[i as int],
                    entries@.len() == base.len() + j,
                    base == flat_pairs(formats@.subrange(0, i as int)),
                    views == string_views(group.1@),
                    entries@.map_values(|p: (String, Vec<u8>)| (p.0@, p.1@)) == base + views.subrange(0, j as int).map_values(
                        |m: Seq<char>| (m, group.0@),
                    ),
                decreases group.1@.len() - j,
            {
                let ghost prev = entries@;
                let ghost prev_view = prev.map_values(|p: (String, Vec<u8>)| (p.0@, p.1@));
                let pair = (group.1[j].clone(), copy_bytes(group.0.as_slice()));
                assert(pair.0@ == views[j as int]);
                entries.push(pair);
                j = j + 1;
                let ghost now = entries@.map_values(|p: (String, Vec<u8>)| (p.0@, p.1@));
                let ghost want = base + views.subrange(0, j as int).map_values(|m: Seq<char>| (m, group.0@));
                let ghost want_prev = base + views.subrange(0, j - 1).map_values(|m: Seq<char>| (m, group.0@));
                assert(now.len() == want.len());
                assert forall|k: int| 0 <= k < now.len() implies #[trigger] now[k] == want[k] by {
                    if k < now.len() - 1 {
                        assert(entries@[k] == prev[k]);
                        assert(now[k] == prev_view[k]);
                        assert(prev_view[k] == want_prev[k]);
                        if k < base.len() {
                            assert(want[k] == base[k]);
                        } else {
                            assert(want[k] == want_prev[k]);
                        }
                    } else {
                        assert(entries@[k] == pair);
                    }
                }
                assert(now =~= want);
            }
            let ghost sub = formats@.subrange(0, i + 1);
            assert(sub.drop_last() =~= formats@.subrange(0, i as int));
            assert(sub.last() == formats@[i as int]);
            assert(views.subrange(0, j as int) =~= views);
            i = i + 1;
        }
        assert(formats@.subrange(0, formats@.len() as int) =~= formats@);
        SelectionContent { entries }
    }

    /// The bytes offered for `mime`, if any.
    pub fn lookup(&self, mime: &String) -> (r: Option<Vec<u8>>)
        ensures
            r is Some <==> self.map().contains_key(mime@),
            r matches Some(b) ==> b@ == self.map()[mime@],
    {
        let ghost s = self.pairs();
        let mut i: usize = self.entries.len();
        while i > 0
            invariant
                0 <= i <= self.entries@.len(),
                s == self.pairs(),
                forall|j: int| i <= j < s.len() ==> #[trigger] s[j].0 != mime@,
            decreases i,
        {
            let entry = &self.entries[i - 1];
            if entry.0 == *mime {
                proof {
                    lemma_content_map_prefix(s, i as int, mime@);
                    let p = s.subrange(0, i as int);
                    assert(p.last() == s[i - 1]);
                    assert(p.drop_last() =~= s.subrange(0, i - 1));
                }
                return Some(copy_bytes(entry.1.as_slice()));
            }
            i = i - 1;
        }
        proof {
            lemma_content_map_keys(s, mime@);
        }
        None
    }

    /// The distinct MIME types offered, in the order of first appearance.
    pub fn mime_types(&self) -> (r: Vec<String>)
        ensures
            string_views(r@).no_duplicates(),
            forall|m: Seq<char>| string_views(r@).contains(m) <==> self.map().contains_key(m),
    {
        let ghost s = self.pairs();
        let mut out: Vec<String> = Vec::new();
        let mut i: usize = 0;
        while i < self.entries.len()
            invariant
                0 <= i <= self.entries@.len(),
                s == self.pairs(),
                string_views(out@).no_duplicates(),
                forall|m: Seq<char>| string_views(out@).contains(m) <==> exists|j: int| 0 <= j < i && #[trigger] s[j].0 == m,
            decreases self.entries@.len() - i,
        {
            let name = &self.entries[i].0;
            assert(s[i as int].0 == name@);
            if !contains_string(&out, name) {
                let ghost prev = string_views(out@);
                out.push(name.clone());
                assert(string_views(out@) =~= prev.push(name@));
                assert forall|m: Seq<char>| string_views(out@).contains(m) <==> exists|j: int| 0 <= j < i + 1 && #[trigger] s[j].0 == m by {
                    if string_views(out@).contains(m) && m != name@ {
                        let k = choose|k: int| 0 <= k < string_views(out@).len() && string_views(out@)[k] == m;
                        assert(prev[k] == m);
                        assert(prev.contains(m));
                    }
                    if m == name@ {
                        assert(string_views(out@)[prev.len() as int] == m);
                    }
                    if exists|j: int| 0 <= j < i && #[trigger] s[j].0 == m {
                        assert(prev.contains(m));
                        let k = choose|k: int| 0 <= k < prev.len() && prev[k] == m;
                        assert(string_views(out@)[k] == m);
                    }
                }
            } else {
                assert forall|m: Seq<char>| string_views(out@).contains(m) <==> exists|j: int| 0 <= j < i + 1 && #[trigger] s[j].0 == m by {
                    if exists|j: int| 0 <= j < i + 1 && #[trigger] s[j].0 == m {
                        let j = choose|j: int| 0 <= j < i + 1 && #[trigger] s[j].0 == m;
                        if j == i {
                            assert(m == name@);
                        }
                    }
                }
            }
            i = i + 1;
        }
        proof {
            assert forall|m: Seq<char>| string_views(out@).contains(m) <==> self.map().contains_key(m) by {
                lemma_content_map_keys(s, m);
            }
        }
        out
    }
}


proof fn lemma_content_map_uniform(s: Seq<(Seq<char>, Seq<u8>)>, v: Seq<u8>, k: Seq<char>)
    requires
        forall|j: int| 0 <= j < s.len() ==> (#[trigger] s[j]).1 == v,
        content_map(s).contains_key(k),
    ensures
        content_map(s)[k] == v,
    decreases s.len(),
{
    if s.len() > 0 && s.last().0 != k {
        let d = s.drop_last();
        assert forall|j: int| 0 <= j < d.len() implies (#[trigger] d[j]).1 == v by {
            assert(d[j] == s[j]);
        }
        lemma_content_map_uniform(d, v, k);
    }
}

/// Storing one payload under several MIME types serves that payload for
/// each of them.
pub proof fn lemma_store_then_serve(data: Vec<u8>, mime_types: Vec<String>, mime: Seq<char>)
    requires
        string_views(mime_types@).contains(mime),
    ensures
        formats_map(seq![(data, mime_types)]).contains_key(mime),
        formats_map(seq![(data, mime_types)])[mime] == data@,
{
    let formats = seq![(data, mime_types)];
    let pairs = flat_pairs(formats);
    assert(formats.drop_last() =~= Seq::<(Vec<u8>, Vec<String>)>::empty());
    assert(flat_pairs(formats.drop_last()) =~= Seq::<(Seq<char>, Seq<u8>)>::empty());
    let views = string_views(mime_types@);
    assert(pairs =~= views.map_values(|m: Seq<char>| (m, data@)));
    let j = choose|j: int| 0 <= j < views.len() && views[j] == mime;
    assert(pairs[j].0 == mime);
    lemma_content_map_keys(pairs, mime);
    lemma_content_map_uniform(pairs, data@, mime);
}


/// The (MIME type, bytes) pairs a payload offers for the types `avail`.
pub open spec fn payload_pairs<T: AsMimeTypes>(content: &T, avail: Seq<MimeModel>) -> Seq<(Seq<char>, Seq<u8>)>
    decreases avail.len(),
{
    if avail.len() == 0 {
        seq![]
    } else {
        let rest = payload_pairs(content, avail.drop_last());
        match content.bytes_spec(avail.last()) {
            Some(b) => rest.push((model_str(avail.last()), b)),
            None => rest,
        }
    }
}

/// The groups to store for a payload: its bytes for each MIME type it is
/// offered as, one type per group.
pub fn formats_of<T: AsMimeTypes>(content: &T) -> (r: Vec<(Vec<u8>, Vec<String>)>)
    ensures
        flat_pairs(r@) == payload_pairs(content, content.available_spec()),
        formats_map(r@) == content_map(payload_pairs(content, content.available_spec())),
{
    let avail = content.available();
    let ghost models = avail@.map_values(|m: MimeType| m@);
    let mut out: Vec<(Vec<u8>, Vec<String>)> = Vec::new();
    let mut i: usize = 0;
    assert(models.subrange(0, 0) =~= Seq::<MimeModel>::empty());
    while i < avail.len()
        invariant
            0 <= i <= avail@.len(),
            models == avail@.map_values(|m: MimeType| m@),
            models == content.available_spec(),
            flat_pairs(out@) == payload_pairs(content, models.subrange(0, i as int)),
        decreases avail@.len() - i,
    {
        let m = &avail[i];
        let ghost sub = models.subrange(0, i + 1);
        assert(sub.drop_last() =~= models.subrange(0, i as int));
        assert(sub.last() == m@);
        if let Some(bytes) = content.as_bytes(m) {
            let mut names: Vec<String> = Vec::new();
            names.push(m.to_string());
            let ghost prev = out@;
            let group = (bytes, names);
            out.push(group);
            assert(out@.drop_last() =~= prev);
            assert(string_views(group.1@) =~= seq![model_str(m@)]);
            assert(string_views(group.1@).map_values(|n: Seq<char>| (n, group.0@)) =~= seq![(model_str(m@), group.0@)]);
            assert(flat_pairs(prev).push((model_str(m@), group.0@)) =~= flat_pairs(prev) + seq![(model_str(m@), group.0@)]);
        }
        i = i + 1;
    }
    assert(models.subrange(0, models.len() as int) =~= models);
    out
}

} // verus!
