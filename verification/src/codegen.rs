//! Which files of the proto directory the code generator compiles.

use vstd::prelude::*;

verus! {

/// The extension of a file name, as `Path::extension` gives it: the text
/// after the last `'.'`; none where there is no `'.'`, where the last `'.'`
/// is the first character, or for `".."`.
pub open spec fn file_extension(name: Seq<char>) -> Option<Seq<char>> {
    if name == seq!['.', '.'] {
        None
    } else if exists|k: int| 0 < k < name.len() && name[k] == '.' && (forall|j: int|
        k < j < name.len() ==> name[j] != '.') {
        let k = choose|k: int|
            0 < k < name.len() && name[k] == '.' && (forall|j: int| k < j < name.len() ==> name[j] != '.');
        Some(name.skip(k + 1))
    } else {
        None
    }
}

/// The extension that marks a protocol description file.
pub open spec fn proto_extension() -> Seq<char> {
    seq!['p', 'r', 'o', 't', 'o']
}

/// Whether a directory entry named `file_name` is compiled: exactly when
/// its extension is `proto`.
pub fn is_proto_file(file_name: &str) -> (r: bool)
    ensures
        r == (file_extension(file_name@) == Some(proto_extension())),
{
    let n = file_name.unicode_len();
    if n == 2 && file_name.get_char(0) == '.' && file_name.get_char(1) == '.' {
        assert(file_name@ =~= seq!['.', '.']);
        return false;
    }
    let mut i: usize = n;
    while i > 0
        invariant
            i <= n,
            n == file_name@.len(),
            forall|j: int| i <= j < n ==> file_name@[j] != '.',
        decreases i,
    {
        if file_name.get_char(i - 1) == '.' {
            let k: usize = i - 1;
            if k == 0 {
                assert(!(exists|k2: int| 0 < k2 < n && file_name@[k2] == '.' && (forall|j: int|
                    k2 < j < n ==> file_name@[j] != '.')));
                return false;
            }
            let ghost name = file_name@;
            assert(forall|k2: int|
                0 < k2 < n && name[k2] == '.' && (forall|j: int| k2 < j < n ==> name[j] != '.')
                    ==> k2 == k);
            let ghost ext = name.skip(k + 1);
            if n - (k + 1) != 5 {
                assert(ext.len() != proto_extension().len());
                return false;
            }
            let ok = file_name.get_char(k + 1) == 'p' && file_name.get_char(k + 2) == 'r'
                && file_name.get_char(k + 3) == 'o' && file_name.get_char(k + 4) == 't'
                && file_name.get_char(k + 5) == 'o';
            assert(ok == (ext =~= proto_extension()));
            return ok;
        }
        i = i - 1;
    }
    false
}

/// Whether a directory entry is compiled: it is a regular file and its
/// extension is `proto`.
pub open spec fn proto_entry_selected(name: Seq<char>, is_file: bool) -> bool {
    is_file && file_extension(name) == Some(proto_extension())
}

/// A directory listing of (payload, file name, is a regular file) entries,
/// with each name taken by its view.
pub open spec fn listing_view<P>(entries: Seq<(P, String, bool)>) -> Seq<(P, Seq<char>, bool)> {
    entries.map_values(|e: (P, String, bool)| (e.0, e.1@, e.2))
}

/// The payloads of the compiled entries of a listing, in listing order.
pub open spec fn proto_selection<P>(listing: Seq<(P, Seq<char>, bool)>) -> Seq<P>
    decreases listing.len(),
{
    if listing.len() == 0 {
        Seq::empty()
    } else {
        let rest = proto_selection(listing.drop_first());
        if proto_entry_selected(listing[0].1, listing[0].2) {
            seq![listing[0].0] + rest
        } else {
            rest
        }
    }
}

/// Keeps, in listing order, the payloads (such as paths) of the entries
/// that are regular files with the extension `proto`.
pub fn select_proto_files<P>(entries: Vec<(P, String, bool)>) -> (selected: Vec<P>)
    ensures
        selected@ == proto_selection(listing_view(entries@)),
{
    let ghost whole = listing_view(entries@);
    let mut rest = entries;
    let mut selected: Vec<P> = Vec::new();
    assert(selected@ + proto_selection(whole) =~= proto_selection(whole));
    while rest.len() > 0
        invariant
            selected@ + proto_selection(listing_view(rest@)) == proto_selection(whole),
        decreases rest.len(),
    {
        let ghost before = listing_view(rest@);
        let (payload, name, is_file) = rest.remove(0);
        assert(listing_view(rest@) =~= before.drop_first());
        assert(before[0] == (payload, name@, is_file));
        let ghost tail = proto_selection(listing_view(rest@));
        if is_file && is_proto_file(name.as_str()) {
            let ghost old_selected = selected@;
            selected.push(payload);
            assert(selected@ + tail =~= old_selected + (seq![payload] + tail));
        }
    }
    assert(proto_selection(listing_view(rest@)) =~= Seq::<P>::empty());
    assert(selected@ + Seq::<P>::empty() =~= selected@);
    selected
}

/// Adding to a listing, at any place, an entry that is not a regular file
/// or whose extension is not `proto` leaves the selection as it was; so a
/// listing with any number of such entries added selects the same files.
pub proof fn lemma_unselected_entry_ignored<P>(
    listing: Seq<(P, Seq<char>, bool)>,
    i: int,
    extra: (P, Seq<char>, bool),
)
    requires
        0 <= i <= listing.len(),
        !proto_entry_selected(extra.1, extra.2),
    ensures
        proto_selection(listing.insert(i, extra)) == proto_selection(listing),
    decreases i,
{
    let longer = listing.insert(i, extra);
    if i == 0 {
        assert(longer.drop_first() =~= listing);
        assert(longer[0] == extra);
    } else {
        assert(longer[0] == listing[0]);
        assert(longer.drop_first() =~= listing.drop_first().insert(i - 1, extra));
        lemma_unselected_entry_ignored(listing.drop_first(), i - 1, extra);
    }
}

/// The selection of two listings one after the other is the selection of
/// the first followed by that of the second.
pub proof fn lemma_selection_concat<P>(a: Seq<(P, Seq<char>, bool)>, b: Seq<(P, Seq<char>, bool)>)
    ensures
        proto_selection(a + b) == proto_selection(a) + proto_selection(b),
    decreases a.len(),
{
    if a.len() == 0 {
        assert(a + b =~= b);
        assert(Seq::<P>::empty() + proto_selection(b) =~= proto_selection(b));
    } else {
        assert((a + b).drop_first() =~= a.drop_first() + b);
        assert((a + b)[0] == a[0]);
        lemma_selection_concat(a.drop_first(), b);
        let first = seq![a[0].0];
        assert(first + (proto_selection(a.drop_first()) + proto_selection(b)) =~= (first
            + proto_selection(a.drop_first())) + proto_selection(b));
    }
}

/// The extension of a name is what follows its last `'.'`: a non-empty stem,
/// a `'.'` and an extension without `'.'` have that extension (except for
/// `".."`); a name without `'.'`, or whose only `'.'` comes first, has none.
pub proof fn lemma_file_extension_of(stem: Seq<char>, ext: Seq<char>)
    requires
        stem.len() > 0,
        !ext.contains('.'),
        stem + seq!['.'] + ext != seq!['.', '.'],
    ensures
        file_extension(stem + seq!['.'] + ext) == Some(ext),
        !stem.contains('.') ==> file_extension(stem) is None,
        !ext.contains('.') ==> file_extension(seq!['.'] + ext) is None,
{
    let name = stem + seq!['.'] + ext;
    let k = stem.len() as int;
    assert(name[k] == '.');
    assert forall|j: int| k < j < name.len() implies name[j] != '.' by {
        assert(name[j] == ext[j - k - 1]);
    }
    let w = choose|w: int|
        0 < w < name.len() && name[w] == '.' && (forall|j: int| w < j < name.len() ==> name[j] != '.');
    assert(w == k) by {
        if w < k {
            assert(name[k] != '.');
        } else if w > k {
            assert(name[w] == ext[w - k - 1]);
        }
    }
    assert(name.skip(k + 1) =~= ext);
    if !stem.contains('.') {
        if exists|w: int| 0 < w < stem.len() && stem[w] == '.' && (forall|j: int|
            w < j < stem.len() ==> stem[j] != '.') {
            let w = choose|w: int|
                0 < w < stem.len() && stem[w] == '.' && (forall|j: int| w < j < stem.len() ==> stem[j] != '.');
            assert(stem.contains('.'));
        }
    }
    let dotted = seq!['.'] + ext;
    if exists|w: int| 0 < w < dotted.len() && dotted[w] == '.' && (forall|j: int|
        w < j < dotted.len() ==> dotted[j] != '.') {
        let w = choose|w: int|
            0 < w < dotted.len() && dotted[w] == '.' && (forall|j: int| w < j < dotted.len() ==> dotted[j] != '.');
        assert(dotted[w] == ext[w - 1]);
    }
}

/// A file name made of a non-empty stem, a `'.'` and `proto` has the
/// extension `proto`, however long the stem.
pub proof fn lemma_proto_name_extension(stem: Seq<char>)
    requires
        stem.len() > 0,
    ensures
        file_extension(stem + seq!['.', 'p', 'r', 'o', 't', 'o']) == Some(proto_extension()),
{
    let name = stem + seq!['.', 'p', 'r', 'o', 't', 'o'];
    let k = stem.len() as int;
    assert(name[k] == '.');
    assert(forall|j: int| k < j < name.len() ==> name[j] != '.');
    assert(name.len() != 2);
    assert(name != seq!['.', '.']);
    let w = choose|w: int|
        0 < w < name.len() && name[w] == '.' && (forall|j: int| w < j < name.len() ==> name[j] != '.');
    assert(w == k) by {
        if w < k {
            assert(name[k] != '.');
        } else if w > k {
            assert(name[w] != '.');
        }
    }
    assert(name.skip(k + 1) =~= proto_extension());
}

/// Adding to a listing, at any place, a regular file named `stem.proto`
/// (any non-empty stem) adds its payload to the selection at that place.
pub proof fn lemma_proto_file_selected<P>(
    listing: Seq<(P, Seq<char>, bool)>,
    i: int,
    payload: P,
    stem: Seq<char>,
)
    requires
        0 <= i <= listing.len(),
        stem.len() > 0,
    ensures
        proto_selection(listing.insert(i, (payload, stem + seq!['.', 'p', 'r', 'o', 't', 'o'], true)))
            == proto_selection(listing.take(i)) + seq![payload] + proto_selection(listing.skip(i)),
{
    let entry = (payload, stem + seq!['.', 'p', 'r', 'o', 't', 'o'], true);
    lemma_proto_name_extension(stem);
    let single = seq![entry];
    assert(single.drop_first() =~= Seq::<(P, Seq<char>, bool)>::empty());
    assert(single[0] == entry);
    assert(proto_entry_selected(entry.1, entry.2));
    assert(proto_selection(single.drop_first()) =~= Seq::<P>::empty());
    assert(seq![payload] + Seq::<P>::empty() =~= seq![payload]);
    assert(proto_selection(single) =~= seq![payload]);
    assert(listing.insert(i, entry) =~= listing.take(i) + (single + listing.skip(i)));
    lemma_selection_concat(single, listing.skip(i));
    lemma_selection_concat(listing.take(i), single + listing.skip(i));
    assert(proto_selection(listing.take(i)) + (seq![payload] + proto_selection(listing.skip(i)))
        =~= proto_selection(listing.take(i)) + seq![payload] + proto_selection(listing.skip(i)));
}

} // verus!
