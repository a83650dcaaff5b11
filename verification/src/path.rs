use vstd::prelude::*;
use vstd::string::StringSliceAdditionalSpecFns;
use crate::text::utf8_lossy;
use crate::text::decode_lossy;

verus! {

/// The byte '/', which separates path components.
pub open spec fn slash() -> u8 {
    47u8
}

/// The byte '.'.
pub open spec fn dot() -> u8 {
    46u8
}

/// An absolute canonical path, as the sequence of its normal components
/// (the root directory is the empty sequence). Components are raw bytes, as
/// the operating system keeps them.
pub struct FsPath {
    pub parts: Vec<Vec<u8>>,
}

impl View for FsPath {
    type V = Seq<Seq<u8>>;

    open spec fn view(&self) -> Seq<Seq<u8>> {
        parts_view(self.parts@)
    }
}

/// The bytes of each component of a list of components.
pub open spec fn parts_view(parts: Seq<Vec<u8>>) -> Seq<Seq<u8>> {
    parts.map_values(|p: Vec<u8>| p@)
}

/// `p` lies in or below `root`, comparing whole components as
/// `Path::starts_with` does.
pub open spec fn is_within(p: Seq<Seq<u8>>, root: Seq<Seq<u8>>) -> bool {
    root.is_prefix_of(p)
}

/// Containment compares whole components at any depth: `p` lies in or
/// below `root` exactly when `p` has at least the root's components and
/// begins with them, however many more it has.
pub proof fn within_is_component_prefix(p: Seq<Seq<u8>>, root: Seq<Seq<u8>>)
    ensures
        is_within(p, root) <==> (root.len() <= p.len() && forall|i: int| 0 <= i < root.len() ==> p[i] == root[i]),
{
    if root.len() <= p.len() && forall|i: int| 0 <= i < root.len() ==> p[i] == root[i] {
        assert(root =~= p.subrange(0, root.len() as int));
    }
    if is_within(p, root) {
        assert forall|i: int| 0 <= i < root.len() implies p[i] == root[i] by {
            assert(p.subrange(0, root.len() as int)[i] == p[i]);
        }
    }
}

/// The bytes of the text of an absolute path given by its pieces: a '/'
/// before each piece, or just "/" when there is none.
pub open spec fn path_text(parts: Seq<Seq<u8>>) -> Seq<u8>
    decreases parts.len(),
{
    if parts.len() == 0 {
        seq![slash()]
    } else if parts.len() == 1 {
        seq![slash()] + parts[0]
    } else {
        path_text(parts.drop_last()) + seq![slash()] + parts.last()
    }
}

/// How a path is shown by `Path::display`: its bytes decoded lossily.
pub open spec fn path_display(parts: Seq<Seq<u8>>) -> Seq<char> {
    utf8_lossy(path_text(parts))
}

fn copy_bytes(v: &Vec<u8>) -> (r: Vec<u8>)
    ensures
        r@ == v@,
{
    let mut r: Vec<u8> = Vec::new();
    let mut i: usize = 0;
    while i < v.len()
        invariant
            i <= v.len(),
            r@ == v@.take(i as int),
        decreases v.len() - i,
    {
        r.push(v[i]);
        i = i + 1;
        assert(r@ =~= v@.take(i as int));
    }
    assert(v@.take(v.len() as int) =~= v@);
    r
}

fn bytes_equal(a: &Vec<u8>, b: &Vec<u8>) -> (r: bool)
    ensures
        r == (a@ == b@),
{
    if a.len() != b.len() {
        return false;
    }
    let mut i: usize = 0;
    while i < a.len()
        invariant
            i <= a.len(),
            a.len() == b.len(),
            forall|k: int| 0 <= k < i ==> a@[k] == b@[k],
        decreases a.len() - i,
    {
        if a[i] != b[i] {
            return false;
        }
        i = i + 1;
    }
    assert(a@ =~= b@);
    true
}


/// The bytes of the text `"/" + parts[0] + "/" + parts[1] + ...` of the
/// pieces of an absolute path.
fn text_of(parts: &Vec<Vec<u8>>) -> (r: Vec<u8>)
    ensures
        r@ == path_text(parts_view(parts@)),
{
    let ghost v = parts_view(parts@);
    let mut r: Vec<u8> = Vec::new();
    r.push(47u8);
    if parts.len() == 0 {
        assert(r@ =~= path_text(v));
        return r;
    }
    let mut i: usize = 0;
    while i < parts.len()
        invariant
            v == parts_view(parts@),
            0 < v.len(),
            i <= v.len(),
            i == 0 ==> r@ == seq![slash()],
            i > 0 ==> r@ == path_text(v.take(i as int)),
        decreases parts.len() - i,
    {
        if i > 0 {
            r.push(47u8);
        }
        let part = &parts[i];
        let mut j: usize = 0;
        let ghost start = r@;
        while j < part.len()
            invariant
                j <= part@.len(),
                r@ == start + part@.take(j as int),
            decreases part.len() - j,
        {
            r.push(part[j]);
            j = j + 1;
            assert(r@ =~= start + part@.take(j as int));
        }
        assert(part@.take(part@.len() as int) =~= part@);
        proof {
            let t = v.take(i + 1);
            assert(t.drop_last() =~= v.take(i as int));
            assert(t.last() == v[i as int]);
            assert(r@ =~= path_text(t));
        }
        i = i + 1;
    }
    assert(v.take(v.len() as int) =~= v);
    r
}

/// Whether a piece of a path text names a component: it is neither empty
/// (two separators in a row, or a trailing one) nor ".".
pub open spec fn is_significant(piece: Seq<u8>) -> bool {
    piece.len() > 0 && piece != seq![dot()]
}

/// The pieces of `bytes` read after a pending piece `run`: the text cut at
/// each '/', empty and "." pieces included.
pub open spec fn pieces_after(run: Seq<u8>, bytes: Seq<u8>) -> Seq<Seq<u8>>
    decreases bytes.len(),
{
    if bytes.len() == 0 {
        seq![run]
    } else if bytes[0] == slash() {
        seq![run] + pieces_after(seq![], bytes.drop_first())
    } else {
        pieces_after(run.push(bytes[0]), bytes.drop_first())
    }
}

/// The pieces of a text cut at each '/': "a//b/" has the pieces "a", "",
/// "b", "".
pub open spec fn split_pieces(bytes: Seq<u8>) -> Seq<Seq<u8>> {
    pieces_after(seq![], bytes)
}

/// The index of the first significant piece at or after `i`, or the number
/// of pieces when there is none.
pub open spec fn first_significant_from(pieces: Seq<Seq<u8>>, i: int) -> int
    decreases pieces.len() - i,
{
    if i >= pieces.len() {
        pieces.len() as int
    } else if is_significant(pieces[i]) {
        i
    } else {
        first_significant_from(pieces, i + 1)
    }
}

/// The index of the last significant piece before `end`, or -1 when there
/// is none.
pub open spec fn last_significant_before(pieces: Seq<Seq<u8>>, end: int) -> int
    decreases end,
{
    if end <= 0 {
        -1
    } else if is_significant(pieces[end - 1]) {
        end - 1
    } else {
        last_significant_before(pieces, end - 1)
    }
}

/// The pieces without the leading and trailing ones that are not
/// significant.
pub open spec fn trim_pieces(pieces: Seq<Seq<u8>>) -> Seq<Seq<u8>> {
    let last = last_significant_before(pieces, pieces.len() as int);
    if last < 0 {
        seq![]
    } else {
        pieces.subrange(first_significant_from(pieces, 0), last + 1)
    }
}

/// The pieces of the relative path that the agent's path gives inside the
/// root. An absolute agent path has its root taken away, as
/// `Path::strip_prefix("/")` does, which also drops leading and trailing
/// empty and "." pieces; a relative one is kept as written.
pub open spec fn relative_pieces(agent_path: Seq<u8>) -> Seq<Seq<u8>> {
    if agent_path.len() > 0 && agent_path[0] == slash() {
        let t = trim_pieces(split_pieces(agent_path.drop_first()));
        if t.len() == 0 {
            seq![seq![]]
        } else {
            t
        }
    } else {
        split_pieces(agent_path)
    }
}

/// The pieces of the path that `root.join(relative)` gives: the root's text,
/// a separator, and the relative text as it is.
pub open spec fn joined_path(root: Seq<Seq<u8>>, agent_path: Seq<u8>) -> Seq<Seq<u8>> {
    root + relative_pieces(agent_path)
}

/// The pieces of the parent of an absolute path, as `Path::parent` gives it:
/// the path up to its last significant piece before the final one, or no
/// parent when the path has no significant piece.
pub open spec fn parent_pieces(pieces: Seq<Seq<u8>>) -> Option<Seq<Seq<u8>>> {
    let j = last_significant_before(pieces, pieces.len() as int);
    if j < 0 {
        None
    } else {
        Some(pieces.take(last_significant_before(pieces, j) + 1))
    }
}

/// An absolute path as written: the pieces of its text after the leading
/// '/', cut at each further '/', empty and "." pieces included. File
/// operations on it see exactly the text that it stands for.
pub struct PathText {
    pub pieces: Vec<Vec<u8>>,
}

impl View for PathText {
    type V = Seq<Seq<u8>>;

    open spec fn view(&self) -> Seq<Seq<u8>> {
        parts_view(self.pieces@)
    }
}

/// The pieces of `bytes.skip(start)`; see `split_pieces`.
fn pieces_from(bytes: &[u8], start: usize) -> (r: Vec<Vec<u8>>)
    requires
        start <= bytes@.len(),
    ensures
        parts_view(r@) == split_pieces(bytes@.skip(start as int)),
{
    let ghost b = bytes@.skip(start as int);
    let mut out: Vec<Vec<u8>> = Vec::new();
    let mut run: Vec<u8> = Vec::new();
    let mut i: usize = start;
    assert(bytes@.skip(start as int).skip(0) =~= b);
    assert(parts_view(out@) =~= Seq::<Seq<u8>>::empty());
    assert(run@ =~= Seq::<u8>::empty());
    assert(bytes@.skip(i as int) =~= b);
    while i < bytes.len()
        invariant
            b == bytes@.skip(start as int),
            start <= i <= bytes@.len(),
            parts_view(out@) + pieces_after(run@, bytes@.skip(i as int)) == split_pieces(b),
        decreases bytes@.len() - i,
    {
        let c = bytes[i];
        assert(bytes@.skip(i as int).drop_first() =~= bytes@.skip(i + 1));
        assert(bytes@.skip(i as int)[0] == c);
        if c == 47u8 {
            let ghost before = parts_view(out@);
            let ghost old_run = run@;
            let piece = run;
            out.push(piece);
            assert(parts_view(out@) =~= before + seq![old_run]);
            run = Vec::new();
            assert(run@ =~= Seq::<u8>::empty());
            assert(parts_view(out@) + pieces_after(run@, bytes@.skip(i + 1)) =~= before + (seq![old_run]
                + pieces_after(seq![], bytes@.skip(i + 1))));
        } else {
            run.push(c);
        }
        i = i + 1;
    }
    assert(bytes@.skip(i as int).len() == 0);
    let ghost before = parts_view(out@);
    let ghost last = run@;
    out.push(run);
    assert(parts_view(out@) =~= before + seq![last]);
    out
}

fn is_significant_piece(p: &Vec<u8>) -> (b: bool)
    ensures
        b == is_significant(p@),
{
    if p.len() == 0 {
        false
    } else if p.len() == 1 && p[0] == 46u8 {
        assert(p@ =~= seq![dot()]);
        false
    } else {
        assert(p@ != seq![dot()]) by {
            if p@.len() == 1 {
                assert(p@[0] != seq![dot()][0]);
            }
        }
        true
    }
}

/// The index of the last significant piece before `end`, if any.
fn last_significant(pieces: &Vec<Vec<u8>>, end: usize) -> (r: Option<usize>)
    requires
        end <= pieces@.len(),
    ensures
        match r {
            Some(i) => i == last_significant_before(parts_view(pieces@), end as int) && i < end,
            None => last_significant_before(parts_view(pieces@), end as int) < 0,
        },
{
    let ghost v = parts_view(pieces@);
    let mut e = end;
    while e > 0
        invariant
            e <= end <= pieces@.len(),
            v == parts_view(pieces@),
            last_significant_before(v, end as int) == last_significant_before(v, e as int),
        decreases e,
    {
        if is_significant_piece(&pieces[e - 1]) {
            return Some(e - 1);
        }
        e = e - 1;
    }
    None
}

/// The index of the first significant piece, or their number.
fn first_significant(pieces: &Vec<Vec<u8>>) -> (r: usize)
    ensures
        r == first_significant_from(parts_view(pieces@), 0),
{
    let ghost v = parts_view(pieces@);
    let mut i: usize = 0;
    while i < pieces.len()
        invariant
            i <= pieces@.len(),
            v == parts_view(pieces@),
            first_significant_from(v, 0) == first_significant_from(v, i as int),
        decreases pieces@.len() - i,
    {
        if is_significant_piece(&pieces[i]) {
            return i;
        }
        i = i + 1;
    }
    i
}

/// Copies the pieces with indices in `from..to`.
fn copy_range(pieces: &Vec<Vec<u8>>, from: usize, to: usize) -> (r: Vec<Vec<u8>>)
    requires
        from <= to <= pieces@.len(),
    ensures
        parts_view(r@) == parts_view(pieces@).subrange(from as int, to as int),
{
    let mut r: Vec<Vec<u8>> = Vec::new();
    let mut i: usize = from;
    while i < to
        invariant
            from <= i <= to <= pieces@.len(),
            parts_view(r@) == parts_view(pieces@).subrange(from as int, i as int),
        decreases to - i,
    {
        let ghost before = r@;
        let piece = copy_bytes(&pieces[i]);
        r.push(piece);
        assert(r@ == before.push(piece));
        assert(parts_view(r@) =~= parts_view(before).push(piece@));
        i = i + 1;
        assert(parts_view(r@) =~= parts_view(pieces@).subrange(from as int, i as int));
    }
    r
}

/// The pieces of the relative path that the agent's path gives; see
/// `relative_pieces`.
pub fn relative_pieces_of(agent_path: &str) -> (r: Vec<Vec<u8>>)
    ensures
        parts_view(r@) == relative_pieces(agent_path.spec_bytes()),
{
    let bytes = agent_path.as_bytes();
    if bytes.len() > 0 && bytes[0] == 47u8 {
        let all = pieces_from(bytes, 1);
        assert(bytes@.skip(1) =~= bytes@.drop_first());
        proof {
            lemma_last_significant_bound(parts_view(all@), all@.len() as int);
        }
        match last_significant(&all, all.len()) {
            None => {
                let mut r: Vec<Vec<u8>> = Vec::new();
                r.push(Vec::new());
                assert(parts_view(r@) =~= seq![Seq::<u8>::empty()]);
                r
            },
            Some(last) => {
                let first = first_significant(&all);
                proof {
                    lemma_first_significant_bound(parts_view(all@), 0, last as int);
                }
                let r = copy_range(&all, first, last + 1);
                assert(parts_view(r@).len() > 0);
                r
            },
        }
    } else {
        assert(bytes@.skip(0) =~= bytes@);
        pieces_from(bytes, 0)
    }
}

proof fn lemma_first_significant_bound(pieces: Seq<Seq<u8>>, i: int, k: int)
    requires
        0 <= i <= k < pieces.len(),
        is_significant(pieces[k]),
    ensures
        i <= first_significant_from(pieces, i) <= k,
    decreases k - i,
{
    if !is_significant(pieces[i]) {
        lemma_first_significant_bound(pieces, i + 1, k);
    }
}

proof fn lemma_last_significant_bound(pieces: Seq<Seq<u8>>, end: int)
    requires
        0 <= end <= pieces.len(),
    ensures
        -1 <= last_significant_before(pieces, end) < end,
        last_significant_before(pieces, end) >= 0 ==> is_significant(
            pieces[last_significant_before(pieces, end)],
        ),
    decreases end,
{
    if end > 0 && !is_significant(pieces[end - 1]) {
        lemma_last_significant_bound(pieces, end - 1);
    }
}

impl PathText {
    /// The path that the agent's `agent_path` names inside `root`, as
    /// `root.join(relative)` writes it; see `joined_path`.
    pub fn joined(root: &FsPath, agent_path: &str) -> (r: PathText)
        ensures
            r@ == joined_path(root@, agent_path.spec_bytes()),
    {
        let mut pieces = root.copy().parts;
        let extra = relative_pieces_of(agent_path);
        let mut i: usize = 0;
        while i < extra.len()
            invariant
                i <= extra@.len(),
                parts_view(pieces@) == root@ + parts_view(extra@).take(i as int),
            decreases extra.len() - i,
        {
            let ghost old_pieces = pieces@;
            let piece = copy_bytes(&extra[i]);
            pieces.push(piece);
            assert(pieces@ == old_pieces.push(piece));
            assert(parts_view(pieces@) =~= parts_view(old_pieces).push(piece@));
            i = i + 1;
            assert(parts_view(pieces@) =~= root@ + parts_view(extra@).take(i as int));
        }
        assert(parts_view(extra@).take(extra.len() as int) =~= parts_view(extra@));
        PathText { pieces }
    }

    /// A copy of this path.
    pub fn copy(&self) -> (r: PathText)
        ensures
            r@ == self@,
    {
        PathText { pieces: copy_range(&self.pieces, 0, self.pieces.len()) }
    }

    /// The parent of this path, as `Path::parent` gives it.
    pub fn parent(&self) -> (r: Option<PathText>)
        ensures
            match r {
                Some(p) => parent_pieces(self@) == Some(p@),
                None => parent_pieces(self@) is None,
            },
    {
        proof {
            lemma_last_significant_bound(self@, self@.len() as int);
        }
        match last_significant(&self.pieces, self.pieces.len()) {
            None => None,
            Some(j) => {
                proof {
                    lemma_last_significant_bound(self@, j as int);
                }
                let keep = match last_significant(&self.pieces, j) {
                    None => 0,
                    Some(m) => m + 1,
                };
                let p = copy_range(&self.pieces, 0, keep);
                assert(parts_view(p@) =~= self@.take(keep as int));
                Some(PathText { pieces: p })
            },
        }
    }

    /// The bytes of this path's text.
    pub fn text_bytes(&self) -> (r: Vec<u8>)
        ensures
            r@ == path_text(self@),
    {
        text_of(&self.pieces)
    }

    /// How this path is shown by `Path::display`.
    pub fn display(&self) -> (r: String)
        ensures
            r@ == path_display(self@),
    {
        let bytes = self.text_bytes();
        decode_lossy(bytes.as_slice())
    }
}

/// The significant pieces of a path, in order: what is left once empty and
/// "." pieces are dropped.
pub open spec fn significant_pieces(pieces: Seq<Seq<u8>>) -> Seq<Seq<u8>>
    decreases pieces.len(),
{
    if pieces.len() == 0 {
        seq![]
    } else if is_significant(pieces.last()) {
        significant_pieces(pieces.drop_last()).push(pieces.last())
    } else {
        significant_pieces(pieces.drop_last())
    }
}

/// Whether a path text ends with a significant piece, and not with a
/// separator or a ".".
pub open spec fn ends_significant(pieces: Seq<Seq<u8>>) -> bool {
    pieces.len() > 0 && is_significant(pieces.last())
}

/// Two absolute path texts name the same place: they have the same
/// significant pieces, and both or neither end with a separator or a ".".
/// In path resolution an empty or "." piece inside a path names no step (it
/// stays in the directory reached so far), while one at the end asks that
/// the path be a directory; so such texts are resolved alike.
pub open spec fn same_place(a: Seq<Seq<u8>>, b: Seq<Seq<u8>>) -> bool {
    significant_pieces(a) == significant_pieces(b) && ends_significant(a) == ends_significant(b)
}

proof fn lemma_significant_concat(a: Seq<Seq<u8>>, b: Seq<Seq<u8>>)
    ensures
        significant_pieces(a + b) == significant_pieces(a) + significant_pieces(b),
    decreases b.len(),
{
    if b.len() == 0 {
        assert(a + b =~= a);
        assert(significant_pieces(b) =~= Seq::<Seq<u8>>::empty());
        assert(significant_pieces(a) + significant_pieces(b) =~= significant_pieces(a));
    } else {
        assert((a + b).drop_last() =~= a + b.drop_last());
        assert((a + b).last() == b.last());
        lemma_significant_concat(a, b.drop_last());
        if is_significant(b.last()) {
            assert(significant_pieces(a) + significant_pieces(b) =~= (significant_pieces(a)
                + significant_pieces(b.drop_last())).push(b.last()));
        }
    }
}

/// Insignificant pieces at the end of a prefix add no significant piece.
proof fn lemma_significant_take(a: Seq<Seq<u8>>, k: int, n: int)
    requires
        0 <= k <= n <= a.len(),
        forall|i: int| k <= i < n ==> !is_significant(#[trigger] a[i]),
    ensures
        significant_pieces(a.take(n)) == significant_pieces(a.take(k)),
    decreases n - k,
{
    if n > k {
        assert(a.take(n).drop_last() =~= a.take(n - 1));
        assert(a.take(n).last() == a[n - 1]);
        lemma_significant_take(a, k, n - 1);
    }
}

proof fn lemma_last_significant_props(a: Seq<Seq<u8>>, n: int)
    requires
        0 <= n <= a.len(),
    ensures
        -1 <= last_significant_before(a, n) < n,
        last_significant_before(a, n) >= 0 ==> is_significant(a[last_significant_before(a, n)]),
        forall|i: int| last_significant_before(a, n) < i < n ==> !is_significant(#[trigger] a[i]),
    decreases n,
{
    if n > 0 && !is_significant(a[n - 1]) {
        lemma_last_significant_props(a, n - 1);
    }
}

/// The significant pieces of the first `n` pieces are those up to the last
/// significant one before `n`; there are none exactly when there is no such
/// piece.
proof fn lemma_significant_prefix(a: Seq<Seq<u8>>, n: int)
    requires
        0 <= n <= a.len(),
    ensures
        ({
            let l = last_significant_before(a, n);
            &&& significant_pieces(a.take(n)).len() == 0 <==> l < 0
            &&& l >= 0 ==> significant_pieces(a.take(n)) == significant_pieces(a.take(l)).push(a[l])
            &&& l < 0 ==> significant_pieces(a.take(n)) == Seq::<Seq<u8>>::empty()
        }),
{
    let l = last_significant_before(a, n);
    lemma_last_significant_props(a, n);
    lemma_significant_take(a, l + 1, n);
    if l >= 0 {
        assert(a.take(l + 1).drop_last() =~= a.take(l));
        assert(a.take(l + 1).last() == a[l]);
    } else {
        assert(a.take(0) =~= Seq::<Seq<u8>>::empty());
    }
}

/// What `Path::parent` keeps of a path's significant pieces: all but the
/// last. A path has a parent exactly when it has a significant piece, and
/// the parent ends with a significant piece exactly when it keeps one.
pub proof fn parent_drops_last_significant_piece(a: Seq<Seq<u8>>)
    ensures
        parent_pieces(a) is None <==> significant_pieces(a).len() == 0,
        parent_pieces(a) matches Some(p) ==> significant_pieces(p) == significant_pieces(a).drop_last()
            && ends_significant(p) == (significant_pieces(a).len() >= 2),
{
    let n = a.len() as int;
    assert(a.take(n) =~= a);
    lemma_significant_prefix(a, n);
    let j = last_significant_before(a, n);
    lemma_last_significant_props(a, n);
    if j >= 0 {
        let m = last_significant_before(a, j);
        lemma_last_significant_props(a, j);
        lemma_significant_prefix(a, j);
        let p = a.take(m + 1);
        if m >= 0 {
            assert(a.take(j).take(m + 1) =~= p);
            lemma_significant_take(a, m + 1, j);
            assert(a.take(m + 1).drop_last() =~= a.take(m));
            assert(p.last() == a[m]);
            lemma_significant_prefix(a, m);
            assert(significant_pieces(p).len() >= 1);
        } else {
            assert(p =~= Seq::<Seq<u8>>::empty());
        }
        assert(significant_pieces(a).drop_last() =~= significant_pieces(a.take(j)));
    }
}

/// Paths with the same significant pieces have parents, or not, alike, and
/// their parents name the same place.
pub proof fn parents_of_the_same_place(a: Seq<Seq<u8>>, b: Seq<Seq<u8>>)
    requires
        significant_pieces(a) == significant_pieces(b),
    ensures
        parent_pieces(a) is Some <==> parent_pieces(b) is Some,
        parent_pieces(a) matches Some(pa) ==> parent_pieces(b) matches Some(pb) && same_place(pa, pb),
{
    parent_drops_last_significant_piece(a);
    parent_drops_last_significant_piece(b);
}

/// A leading '/' on the agent's path names the same place, when the rest
/// `p` is not itself absolute and does not end with a separator or a "."
/// (a trailing one is dropped from an absolute agent path but kept in a
/// relative one, where it asks for a directory). Leading or inner empty and
/// "." pieces of `p` may differ between the two texts; they name no step.
pub proof fn leading_slash_names_the_same_place(root: Seq<Seq<u8>>, p: Seq<u8>)
    requires
        !(p.len() > 0 && p[0] == slash()),
        p.len() == 0 || ends_significant(split_pieces(p)),
    ensures
        same_place(joined_path(root, seq![slash()] + p), joined_path(root, p)),
{
    let a = seq![slash()] + p;
    assert(a.drop_first() =~= p);
    lemma_split_nonempty(seq![], p);
    let s = split_pieces(p);
    if p.len() == 0 {
        assert(s =~= seq![Seq::<u8>::empty()]);
        assert(!is_significant(s[0]));
        assert(last_significant_before(s, 0) == -1);
        assert(last_significant_before(s, 1) == -1);
    } else {
        let n = s.len() as int;
        assert(last_significant_before(s, n) == n - 1);
        let f = first_significant_from(s, 0);
        lemma_first_significant_props(s, 0, n - 1);
        let t = s.subrange(f, n);
        assert(relative_pieces(a) == t);
        assert(s =~= s.take(f) + t);
        lemma_significant_take(s, 0, f);
        assert(s.take(0) =~= Seq::<Seq<u8>>::empty());
        lemma_significant_concat(s.take(f), t);
        assert(significant_pieces(s.take(f)) + significant_pieces(t) =~= significant_pieces(t));
        lemma_significant_concat(root, t);
        lemma_significant_concat(root, s);
        assert((root + t).last() == (root + s).last());
    }
}

proof fn lemma_first_significant_props(s: Seq<Seq<u8>>, i: int, k: int)
    requires
        0 <= i <= k < s.len(),
        is_significant(s[k]),
    ensures
        i <= first_significant_from(s, i) <= k,
        forall|x: int| i <= x < first_significant_from(s, i) ==> !is_significant(#[trigger] s[x]),
    decreases k - i,
{
    if !is_significant(s[i]) {
        lemma_first_significant_props(s, i + 1, k);
    }
}

proof fn lemma_split_nonempty(run: Seq<u8>, bytes: Seq<u8>)
    ensures
        pieces_after(run, bytes).len() >= 1,
    decreases bytes.len(),
{
    if bytes.len() > 0 {
        if bytes[0] == slash() {
            lemma_split_nonempty(seq![], bytes.drop_first());
        } else {
            lemma_split_nonempty(run.push(bytes[0]), bytes.drop_first());
        }
    }
}

impl FsPath {
    /// A copy of this path.
    pub fn copy(&self) -> (r: FsPath)
        ensures
            r@ == self@,
    {
        FsPath { parts: copy_range(&self.parts, 0, self.parts.len()) }
    }

    /// Whether this path lies in or below `root`, comparing whole
    /// components.
    pub fn starts_with(&self, root: &FsPath) -> (r: bool)
        ensures
            r == is_within(self@, root@),
    {
        if root.parts.len() > self.parts.len() {
            return false;
        }
        let mut i: usize = 0;
        while i < root.parts.len()
            invariant
                root.parts@.len() <= self.parts@.len(),
                i <= root.parts@.len(),
                forall|k: int| 0 <= k < i ==> root@[k] == self@[k],
            decreases root.parts.len() - i,
        {
            if !bytes_equal(&root.parts[i], &self.parts[i]) {
                assert(root@[i as int] != self@.subrange(0, root@.len() as int)[i as int]);
                return false;
            }
            i = i + 1;
        }
        assert(root@ =~= self@.subrange(0, root@.len() as int));
        true
    }

    /// The bytes of this path's text.
    pub fn text_bytes(&self) -> (r: Vec<u8>)
        ensures
            r@ == path_text(self@),
    {
        text_of(&self.parts)
    }

    /// How this path is shown by `Path::display`.
    pub fn display(&self) -> (r: String)
        ensures
            r@ == path_display(self@),
    {
        let bytes = self.text_bytes();
        decode_lossy(bytes.as_slice())
    }
}

} // verus!
