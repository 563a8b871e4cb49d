//! File transfer: the framing of file data inside the session's sealed channel, and directory
//! listings.
//!
//! A file frame is the byte 0xF7, the transfer's number (four bytes), the offset of the data in
//! the file (eight bytes), both big-endian, and the data. Its first byte tells it apart from JSON
//! (`{`) and from H.264 (a zero byte).

use crate::bytes;
use crate::json;
use crate::json::{Json, Value};
use crate::text;
use vstd::prelude::*;
use vstd::slice::slice_subrange;
use vstd::string::*;

verus! {

/// The first byte of a file frame.
pub const FILE_FRAME_MAGIC: u8 = 0xF7;

/// How much of a file goes into one frame.
pub const FILE_CHUNK: usize = 32 * 1024;

/// The length of a file frame's header.
pub const FILE_HEADER: usize = 13;

/// The frame that carries `data` at `offset` of transfer `id`.
pub open spec fn file_frame(id: u32, offset: u64, data: Seq<u8>) -> Seq<u8> {
    seq![FILE_FRAME_MAGIC] + bytes::be_bytes(id as nat, 4) + bytes::be_bytes(offset as nat, 8)
        + data
}

/// What a file frame holds; nothing when `buf` is no file frame.
pub open spec fn parsed_frame(buf: Seq<u8>) -> Option<(u32, u64, Seq<u8>)> {
    if buf.len() < FILE_HEADER || buf[0] != FILE_FRAME_MAGIC {
        None
    } else {
        Some(
            (
                bytes::be_value(buf.subrange(1, 5)) as u32,
                bytes::be_value(buf.subrange(5, 13)) as u64,
                buf.skip(FILE_HEADER as int),
            ),
        )
    }
}

/// Puts a file frame together.
pub fn encode_file_frame(id: u32, offset: u64, data: &[u8]) -> (out: Vec<u8>)
    ensures
        out@ == file_frame(id, offset, data@),
{
    let mut out: Vec<u8> = Vec::new();
    out.push(FILE_FRAME_MAGIC);
    bytes::push_be32(&mut out, id);
    bytes::push_be64(&mut out, offset);
    bytes::append_slice(&mut out, data);
    proof {
        assert(out@ =~= file_frame(id, offset, data@));
    }
    out
}

/// Takes a file frame apart; `None` when it is none.
pub fn parse_file_frame(buf: &[u8]) -> (r: Option<(u32, u64, &[u8])>)
    ensures
        match r {
            Some((id, offset, data)) => parsed_frame(buf@) == Some((id, offset, data@)),
            None => parsed_frame(buf@) is None,
        },
{
    if buf.len() < FILE_HEADER || buf[0] != FILE_FRAME_MAGIC {
        return None;
    }
    let id: u32 = bytes::read_be32(buf, 1);
    let offset: u64 = bytes::read_be64(buf, 5);
    let data: &[u8] = slice_subrange(buf, FILE_HEADER, buf.len());
    proof {
        assert(data@ =~= buf@.skip(FILE_HEADER as int));
    }
    Some((id, offset, data))
}

/// Taking apart what was put together gives back number, offset and data.
pub proof fn law_file_frame_roundtrip(id: u32, offset: u64, data: Seq<u8>)
    ensures
        parsed_frame(file_frame(id, offset, data)) == Some((id, offset, data)),
{
    let f = file_frame(id, offset, data);
    bytes::lemma_pow256();
    bytes::lemma_be_roundtrip(id as nat, 4);
    bytes::lemma_be_roundtrip(offset as nat, 8);
    assert(f.subrange(1, 5) =~= bytes::be_bytes(id as nat, 4));
    assert(f.subrange(5, 13) =~= bytes::be_bytes(offset as nat, 8));
    assert(f.skip(13) =~= data);
}

/// A JSON object and an H.264 access unit are never taken for a file frame, nor a file frame for
/// one of them.
pub proof fn law_file_frame_is_distinct(buf: Seq<u8>, id: u32, offset: u64, data: Seq<u8>)
    ensures
        buf.len() > 0 && (buf[0] == 0x7B || buf[0] == 0) ==> parsed_frame(buf) is None,
        file_frame(id, offset, data)[0] == 0xF7,
{
}

/// A file or directory in a listing.
#[derive(Debug, PartialEq, Eq)]
pub struct DirEntry {
    pub name: String,
    pub dir: bool,
    pub size: u64,
}

/// What an entry holds.
pub struct Entry {
    pub name: Seq<char>,
    pub dir: bool,
    pub size: u64,
}

impl View for DirEntry {
    type V = Entry;

    open spec fn view(&self) -> Entry {
        Entry { name: self.name@, dir: self.dir, size: self.size }
    }
}

pub open spec fn entries_of(v: Seq<DirEntry>) -> Seq<Entry> {
    v.map_values(|e: DirEntry| e@)
}

/// Whether `a` may stand before `b`: directories first, then by the bytes of the name.
pub open spec fn entry_le(a: Entry, b: Entry) -> bool {
    if a.dir != b.dir {
        a.dir
    } else {
        bytes::lex_le(vstd::utf8::encode_utf8(a.name), vstd::utf8::encode_utf8(b.name))
    }
}

/// Whether two entries are of one rank.
pub open spec fn same_rank(a: Entry, b: Entry) -> bool {
    a.dir == b.dir && a.name == b.name
}

/// Whether `out` is `found` in order, entries of one rank keeping the order they had.
pub open spec fn ordered(found: Seq<Entry>, out: Seq<Entry>) -> bool {
    &&& forall|i: int, j: int| 0 <= i < j < out.len() ==> entry_le(out[i], out[j])
    &&& forall|e: Entry| #[trigger] of_rank(out, e) == of_rank(found, e)
}

/// The entries of the rank of `e`, in order.
pub open spec fn of_rank(s: Seq<Entry>, e: Entry) -> Seq<Entry> {
    s.filter(|x: Entry| same_rank(e, x))
}

proof fn lemma_entry_order(a: Entry, b: Entry, c: Entry)
    ensures
        entry_le(a, b) || entry_le(b, a),
        entry_le(a, b) && entry_le(b, a) ==> same_rank(a, b),
        entry_le(a, b) && entry_le(b, c) ==> entry_le(a, c),
        same_rank(a, b) ==> entry_le(a, b),
{
    let (x, y, z) = (
        vstd::utf8::encode_utf8(a.name),
        vstd::utf8::encode_utf8(b.name),
        vstd::utf8::encode_utf8(c.name),
    );
    bytes::lemma_lex_total(x, y);
    if bytes::lex_le(x, y) && bytes::lex_le(y, z) {
        bytes::lemma_lex_transitive(x, y, z);
    }
    if x == y {
        text::lemma_utf8_injective(a.name, b.name);
    }
}

fn entry_before(a: &DirEntry, b: &DirEntry) -> (r: bool)
    ensures
        r == entry_le(a@, b@),
{
    if a.dir != b.dir {
        a.dir
    } else {
        bytes::bytes_le(a.name.as_str().as_bytes(), b.name.as_str().as_bytes())
    }
}

fn copy_entry(e: &DirEntry) -> (r: DirEntry)
    ensures
        r@ == e@,
{
    DirEntry { name: e.name.clone(), dir: e.dir, size: e.size }
}

proof fn lemma_insert_ordered(found: Seq<Entry>, out: Seq<Entry>, e: Entry, at: int)
    requires
        ordered(found, out),
        0 <= at <= out.len(),
        forall|i: int| 0 <= i < at ==> entry_le(#[trigger] out[i], e),
        forall|i: int| at <= i < out.len() ==> !entry_le(#[trigger] out[i], e),
    ensures
        ordered(found.push(e), out.insert(at, e)),
{
    let next = out.insert(at, e);
    assert forall|i: int, j: int| 0 <= i < j < next.len() implies entry_le(next[i], next[j]) by {
        if i < at && j > at {
            assert(entry_le(out[i], out[j - 1]));
        } else if i == at {
            lemma_entry_order(out[j - 1], e, e);
        } else if j == at {
        } else if i > at {
            assert(entry_le(out[i - 1], out[j - 1]));
        } else {
            assert(entry_le(out[i], out[j]));
        }
    }
    assert forall|k: Entry| #[trigger] of_rank(next, k) == of_rank(found.push(e), k) by {
        let p = |x: Entry| same_rank(k, x);
        let (a, b) = (out.take(at), out.skip(at));
        assert(next =~= a + seq![e] + b);
        assert(out =~= a + b);
        assert(found.push(e) =~= found + seq![e]);
        Seq::filter_distributes_over_add(a, b, p);
        Seq::filter_distributes_over_add(a + seq![e], b, p);
        Seq::filter_distributes_over_add(a, seq![e], p);
        Seq::filter_distributes_over_add(found, seq![e], p);
        assert(of_rank(out, k) == of_rank(found, k));
        assert(out.filter(p) == found.filter(p));
        if same_rank(k, e) {
            assert forall|i: int| 0 <= i < b.len() implies !p(#[trigger] b[i]) by {
                assert(b[i] == out[at + i]);
                lemma_entry_order(out[at + i], e, e);
            }
            lemma_filter_none(b, p);
            assert(next.filter(p) =~= found.push(e).filter(p));
        } else {
            assert(!p(seq![e][0]));
            lemma_filter_none(seq![e], p);
            assert(next.filter(p) =~= found.push(e).filter(p));
        }
    }
}

proof fn lemma_filter_none(s: Seq<Entry>, p: spec_fn(Entry) -> bool)
    requires
        forall|i: int| 0 <= i < s.len() ==> !p(#[trigger] s[i]),
    ensures
        s.filter(p) == Seq::<Entry>::empty(),
    decreases s.len(),
{
    reveal(Seq::filter);
    if s.len() > 0 {
        assert forall|i: int| 0 <= i < s.drop_last().len() implies !p(
            #[trigger] s.drop_last()[i],
        ) by {
            assert(s.drop_last()[i] == s[i]);
        }
        lemma_filter_none(s.drop_last(), p);
        assert(!p(s[s.len() - 1]));
    }
}

/// The entries in the order of a listing.
pub fn sort_entries(found: &Vec<DirEntry>) -> (out: Vec<DirEntry>)
    ensures
        ordered(entries_of(found@), entries_of(out@)),
{
    let mut out: Vec<DirEntry> = Vec::new();
    let mut i: usize = 0;
    proof {
        assert(entries_of(found@).take(0) =~= Seq::empty());
        assert(entries_of(out@) =~= Seq::empty());
    }
    while i < found.len()
        invariant
            i <= found@.len(),
            ordered(entries_of(found@).take(i as int), entries_of(out@)),
        decreases found@.len() - i,
    {
        let ghost prev = entries_of(out@);
        let ghost seen = entries_of(found@).take(i as int);
        let ghost e = found@[i as int]@;
        let mut at: usize = 0;
        while at < out.len() && entry_before(&out[at], &found[i])
            invariant
                i < found@.len(),
                at <= out@.len(),
                prev == entries_of(out@),
                e == found@[i as int]@,
                forall|j: int| 0 <= j < at ==> entry_le(#[trigger] prev[j], e),
            decreases out@.len() - at,
        {
            assert(prev[at as int] == out@[at as int]@);
            at += 1;
        }
        proof {
            assert forall|j: int| at <= j < prev.len() implies !entry_le(#[trigger] prev[j], e) by {
                assert(prev[at as int] == out@[at as int]@);
                if at < j {
                    assert(entry_le(prev[at as int], prev[j]));
                    lemma_entry_order(prev[at as int], prev[j], e);
                }
            }
            lemma_insert_ordered(seen, prev, e, at as int);
            assert(entries_of(found@).take(i + 1) =~= seen.push(e));
        }
        let copy: DirEntry = copy_entry(&found[i]);
        out.insert(at, copy);
        proof {
            assert(entries_of(out@) =~= prev.insert(at as int, e));
        }
        i += 1;
    }
    proof {
        assert(entries_of(found@).take(i as int) =~= entries_of(found@));
    }
    out
}

/// A directory's listing, or why there is none.
#[derive(Debug)]
pub struct DirListing {
    pub path: String,
    pub entries: Vec<DirEntry>,
    pub err: Option<String>,
}

/// What reading a directory gave.
#[derive(Debug)]
pub enum DirRead {
    Found(Vec<DirEntry>),
    Failed(String),
}

/// The root of the drive with this letter.
pub open spec fn drive_root(letter: u8) -> Seq<char> {
    seq![letter as char, ':', '\\']
}

/// The roots of all drives that there can be, from A to Z.
pub fn drive_roots() -> (roots: Vec<String>)
    ensures
        text::texts(roots@) == Seq::new(26, |i: int| drive_root((65 + i) as u8)),
{
    let mut roots: Vec<String> = Vec::new();
    let mut c: u8 = 65;
    while c < 91
        invariant
            65 <= c <= 91,
            roots@.len() == c - 65,
            forall|i: int|
                0 <= i < roots@.len() ==> (#[trigger] roots@[i])@ == drive_root((65 + i) as u8),
        decreases 91 - c,
    {
        let mut s: String = String::new();
        s.push(c as char);
        s.push(':');
        s.push('\\');
        proof {
            assert(s@ =~= drive_root(c));
        }
        roots.push(s);
        c += 1;
    }
    proof {
        assert(text::texts(roots@) =~= Seq::new(26, |i: int| drive_root((65 + i) as u8)));
    }
    roots
}

/// The listing of the drives: the roots that are there, each as an empty directory.
pub fn drive_listing(present: &Vec<String>) -> (l: DirListing)
    ensures
        l.path@.len() == 0,
        l.err is None,
        entries_of(l.entries@) == text::texts(present@).map_values(
            |root: Seq<char>| Entry { name: root, dir: true, size: 0 },
        ),
{
    let mut entries: Vec<DirEntry> = Vec::new();
    let mut i: usize = 0;
    while i < present.len()
        invariant
            i <= present@.len(),
            entries@.len() == i,
            forall|j: int|
                0 <= j < i ==> (#[trigger] entries@[j])@ == (Entry {
                    name: present@[j]@,
                    dir: true,
                    size: 0,
                }),
        decreases present@.len() - i,
    {
        entries.push(DirEntry { name: present[i].clone(), dir: true, size: 0 });
        i += 1;
    }
    proof {
        assert(entries_of(entries@) =~= text::texts(present@).map_values(
            |root: Seq<char>| Entry { name: root, dir: true, size: 0 },
        ));
    }
    DirListing { path: String::new(), entries, err: None }
}

/// The listing of the directory at `path`: what was found, in order, or the error and no entry.
pub fn list_dir(path: &str, read: &DirRead) -> (l: DirListing)
    ensures
        l.path@ == path@,
        match read {
            DirRead::Found(found) => {
                &&& l.err is None
                &&& ordered(entries_of(found@), entries_of(l.entries@))
            },
            DirRead::Failed(why) => {
                &&& text::opt_view(l.err) == Some(why@)
                &&& l.entries@.len() == 0
            },
        },
{
    match read {
        DirRead::Found(found) => DirListing {
            path: path.to_owned(),
            entries: sort_entries(found),
            err: None,
        },
        DirRead::Failed(why) => DirListing {
            path: path.to_owned(),
            entries: Vec::new(),
            err: Some(why.clone()),
        },
    }
}

/// An entry as JSON.
pub open spec fn entry_json(e: Entry) -> Value {
    Value::Obj(
        seq![
            ("name"@, Value::Str(e.name)),
            ("dir"@, Value::Bool(e.dir)),
            ("size"@, Value::Uint(e.size)),
        ],
    )
}

/// A listing as JSON.
pub open spec fn listing_json(path: Seq<char>, entries: Seq<Entry>, err: Option<Seq<char>>) -> Value {
    Value::Obj(
        seq![
            ("path"@, Value::Str(path)),
            ("entries"@, Value::Arr(entries.map_values(|e: Entry| entry_json(e)))),
            ("err"@, crate::json::text_or_null(err)),
        ],
    )
}

impl DirEntry {
    pub fn to_json(&self) -> (j: Json)
        ensures
            j@ == entry_json(self@),
    {
        let j = Json::empty().with("name", Json::text(self.name.as_str())).with(
            "dir",
            Json::Bool(self.dir),
        ).with("size", Json::Uint(self.size));
        proof {
            assert(j@->Obj_0 =~= entry_json(self@)->Obj_0);
        }
        j
    }
}

impl DirListing {
    pub fn to_json(&self) -> (j: Json)
        ensures
            j@ == listing_json(self.path@, entries_of(self.entries@), text::opt_view(self.err)),
    {
        let mut list: Vec<Json> = Vec::new();
        let mut i: usize = 0;
        while i < self.entries.len()
            invariant
                i <= self.entries@.len(),
                list@.len() == i,
                forall|k: int|
                    0 <= k < i ==> (#[trigger] list@[k])@ == entry_json(self.entries@[k]@),
            decreases self.entries@.len() - i,
        {
            list.push(self.entries[i].to_json());
            i += 1;
        }
        let err: Json = match &self.err {
            Some(e) => Json::text(e.as_str()),
            None => Json::Null,
        };
        let arr = Json::Arr(list);
        proof {
            assert(arr@->Arr_0 =~= entries_of(self.entries@).map_values(|e: Entry| entry_json(e)));
        }
        let j = Json::empty().with("path", Json::text(self.path.as_str())).with(
            "entries",
            arr,
        ).with("err", err);
        proof {
            assert(j@->Obj_0 =~= listing_json(
                self.path@,
                entries_of(self.entries@),
                text::opt_view(self.err),
            )->Obj_0);
        }
        j
    }
}

/// Whether the JSON of an entry gives its name, its kind and its size.
pub open spec fn tells_entry(v: Value, e: DirEntry) -> bool {
    &&& json::str_field(v, "name"@) == Some(e.name@)
    &&& json::bool_field(v, "dir"@) == Some(e.dir)
    &&& json::uint_field(v, "size"@) == Some(e.size)
}

proof fn lemma_tells_entry(e: DirEntry)
    ensures
        tells_entry(entry_json(e@), e),
{
    let v = entry_json(e@);
    reveal_strlit("name");
    reveal_strlit("dir");
    reveal_strlit("size");
    assert("name"@[0] != "size"@[0]);
    assert("name"@.len() != "dir"@.len() && "dir"@.len() != "size"@.len());
    json::lemma_field_at(v, "name"@, 0);
    json::lemma_field_at(v, "dir"@, 1);
    json::lemma_field_at(v, "size"@, 2);
}

/// Who reads the JSON of a listing gets the whole listing: its path, every entry at its place with
/// name, kind and size, and no other, and the error, if there is one.
pub proof fn law_listing_is_read_back(l: &DirListing, j: Json)
    requires
        call_ensures(DirListing::to_json, (l,), j),
    ensures
        json::str_field(j@, "path"@) == Some(l.path@),
        json::field(j@, "entries"@) matches Some(Value::Arr(entries)) && {
            &&& entries.len() == l.entries@.len()
            &&& forall|i: int| 0 <= i < entries.len() ==> tells_entry(#[trigger] entries[i], l.entries@[i])
        },
        match l.err {
            Some(why) => json::str_field(j@, "err"@) == Some(why@),
            None => json::field(j@, "err"@) == Some(Value::Null),
        },
{
    let v = j@;
    reveal_strlit("path");
    reveal_strlit("entries");
    reveal_strlit("err");
    assert("path"@.len() != "entries"@.len() && "path"@.len() != "err"@.len());
    assert("err"@.len() != "entries"@.len());
    json::lemma_field_at(v, "path"@, 0);
    json::lemma_field_at(v, "entries"@, 1);
    json::lemma_field_at(v, "err"@, 2);
    let entries = json::field(v, "entries"@)->0->Arr_0;
    assert forall|i: int| 0 <= i < entries.len() implies tells_entry(
        #[trigger] entries[i],
        l.entries@[i],
    ) by {
        lemma_tells_entry(l.entries@[i]);
    }
}

proof fn lemma_rank_counts(s: Seq<Entry>, e: Entry)
    ensures
        s.to_multiset().count(e) == of_rank(s, e).to_multiset().count(e),
    decreases s.len(),
{
    broadcast use vstd::seq_lib::group_to_multiset_ensures;

    reveal(Seq::filter);
    if s.len() > 0 {
        let rest = s.drop_last();
        lemma_rank_counts(rest, e);
        assert(s =~= rest.push(s.last()));
        assert(s.to_multiset() =~= rest.to_multiset().insert(s.last()));
        if same_rank(e, s.last()) {
            assert(of_rank(s, e) == of_rank(rest, e).push(s.last()));
            assert(of_rank(s, e).to_multiset() =~= of_rank(rest, e).to_multiset().insert(s.last()));
        } else {
            assert(of_rank(s, e) == of_rank(rest, e));
        }
    } else {
        assert(of_rank(s, e) =~= s);
    }
}

/// A listing holds exactly what was found, each entry as often as it was found; directories stand
/// before files, and among either no name stands before a smaller one.
pub proof fn law_listing_is_complete(path: &str, read: &DirRead, l: DirListing)
    requires
        call_ensures(list_dir, (path, read), l),
    ensures
        l.path@ == path@,
        match read {
            DirRead::Found(found) => {
                &&& entries_of(l.entries@).to_multiset() == entries_of(found@).to_multiset()
                &&& l.err is None
            },
            DirRead::Failed(why) => {
                &&& l.entries@.len() == 0
                &&& l.err matches Some(e)
                &&& e@ == why@
            },
        },
        forall|i: int, j: int|
            0 <= i < j < l.entries@.len() ==> {
                let (a, b) = (#[trigger] l.entries@[i], #[trigger] l.entries@[j]);
                &&& b.dir ==> a.dir
                &&& a.dir == b.dir ==> {
                    let (x, y) = (
                        vstd::utf8::encode_utf8(a.name@),
                        vstd::utf8::encode_utf8(b.name@),
                    );
                    x == y || !bytes::lex_le(y, x)
                }
            },
{
    let out = entries_of(l.entries@);
    if let DirRead::Found(found) = read {
        let all = entries_of(found@);
        assert forall|e: Entry| out.to_multiset().count(e) == all.to_multiset().count(e) by {
            lemma_rank_counts(out, e);
            lemma_rank_counts(all, e);
            assert(of_rank(out, e) == of_rank(all, e));
        }
        assert(out.to_multiset() =~= all.to_multiset());
    }
    assert forall|i: int, j: int| 0 <= i < j < l.entries@.len() implies {
        let (a, b) = (#[trigger] l.entries@[i], #[trigger] l.entries@[j]);
        &&& b.dir ==> a.dir
        &&& a.dir == b.dir ==> {
            let (x, y) = (vstd::utf8::encode_utf8(a.name@), vstd::utf8::encode_utf8(b.name@));
            x == y || !bytes::lex_le(y, x)
        }
    } by {
        let (a, b) = (l.entries@[i], l.entries@[j]);
        assert(out[i] == a@ && out[j] == b@);
        assert(entry_le(out[i], out[j]));
        bytes::lemma_lex_total(
            vstd::utf8::encode_utf8(a.name@),
            vstd::utf8::encode_utf8(b.name@),
        );
    }
}

/// The listing of the drives names every drive that is there, in order, as an empty directory.
pub proof fn law_drives_are_directories(present: &Vec<String>, l: DirListing)
    requires
        call_ensures(drive_listing, (present,), l),
    ensures
        l.entries@.len() == present@.len(),
        l.err is None,
        forall|i: int|
            0 <= i < present@.len() ==> {
                let e = #[trigger] l.entries@[i];
                e.name@ == present@[i]@ && e.dir && e.size == 0
            },
{
    let out = entries_of(l.entries@);
    assert(out.len() == l.entries@.len());
    assert forall|i: int| 0 <= i < present@.len() implies {
        let e = #[trigger] l.entries@[i];
        e.name@ == present@[i]@ && e.dir && e.size == 0
    } by {
        assert(out[i] == l.entries@[i]@);
    }
}

/// The drives that there can be are those from A to Z, each by its root.
pub proof fn law_drive_roots(roots: Vec<String>, i: int)
    requires
        call_ensures(drive_roots, (), roots),
        0 <= i < 26,
    ensures
        roots@.len() == 26,
        roots@[i]@.len() == 3,
        roots@[i]@[0] as int == 'A' as int + i,
        roots@[i]@[1] == ':' && roots@[i]@[2] == '\\',
{
    let all = text::texts(roots@);
    assert(all.len() == roots@.len());
    assert(all[i] == roots@[i]@);
}

/// A file frame has its parts in their places: the byte that marks it, the transfer's number and
/// the place in the file, each with the most significant byte first, and then the data; and taking
/// it apart gives them back.
pub proof fn law_file_frame_layout(
    id: u32,
    offset: u64,
    data: &[u8],
    out: Vec<u8>,
    buf: &[u8],
    r: Option<(u32, u64, &[u8])>,
)
    requires
        call_ensures(encode_file_frame, (id, offset, data), out),
        buf@ == out@,
        call_ensures(parse_file_frame, (buf,), r),
    ensures
        out@.len() == 13 + data@.len(),
        out@[0] == 0xF7,
        out@[1] == id / 0x100_0000 && out@[4] == id % 256,
        out@[5] == offset / 0x100_0000_0000_0000 && out@[12] == offset % 256,
        out@.skip(13) == data@,
        r matches Some((i, o, d)) && i == id && o == offset && d@ == data@,
{
    law_file_frame_roundtrip(id, offset, data@);
    bytes::lemma_be_bytes_len(id as nat, 4);
    bytes::lemma_be_bytes_len(offset as nat, 8);
    reveal_with_fuel(bytes::be_bytes, 9);
    let (a, b) = (bytes::be_bytes(id as nat, 4), bytes::be_bytes(offset as nat, 8));
    assert(out@[1] == a[0] && out@[4] == a[3]);
    assert(out@[5] == b[0] && out@[12] == b[7]);
    assert(out@.skip(13) =~= data@);
}

/// Who reads the JSON of an entry gets the entry; and ordering entries loses none and adds none.
pub proof fn law_entry_is_read_back(e: &DirEntry, j: Json, found: &Vec<DirEntry>, out: Vec<DirEntry>)
    requires
        call_ensures(DirEntry::to_json, (e,), j),
        call_ensures(sort_entries, (found,), out),
    ensures
        tells_entry(j@, *e),
        entries_of(out@).to_multiset() == entries_of(found@).to_multiset(),
{
    lemma_tells_entry(*e);
    let (x, y) = (entries_of(out@), entries_of(found@));
    assert forall|k: Entry| x.to_multiset().count(k) == y.to_multiset().count(k) by {
        lemma_rank_counts(x, k);
        lemma_rank_counts(y, k);
        assert(of_rank(x, k) == of_rank(y, k));
    }
    assert(x.to_multiset() =~= y.to_multiset());
}

} // verus!
