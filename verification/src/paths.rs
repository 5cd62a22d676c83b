//! Slash-separated paths: the last named component, its extension, and
//! joining a name onto a directory, with the meaning std's `Path` gives them.

use vstd::prelude::*;

verus! {

/// A component that names nothing: empty (from repeated or trailing
/// slashes) or the current directory `.`.
pub open spec fn is_skipped_segment(seg: Seq<char>) -> bool {
    seg.len() == 0 || seg == seq!['.']
}

/// The pieces of `p` between slashes, in order (an empty path is one empty
/// piece).
pub open spec fn segments(p: Seq<char>) -> Seq<Seq<char>>
    decreases p.len(),
{
    if p.len() == 0 {
        seq![Seq::<char>::empty()]
    } else {
        let prev = segments(p.drop_last());
        if p.last() == '/' {
            prev.push(Seq::<char>::empty())
        } else {
            prev.update(prev.len() - 1, prev.last().push(p.last()))
        }
    }
}

/// The last piece that names something, if any.
pub open spec fn last_named(segs: Seq<Seq<char>>) -> Option<Seq<char>>
    decreases segs.len(),
{
    if segs.len() == 0 {
        None
    } else if is_skipped_segment(segs.last()) {
        last_named(segs.drop_last())
    } else {
        Some(segs.last())
    }
}

/// The final component of a path, as `Path::file_name` gives it: none for a
/// path that ends in `..` or names no component at all.
pub open spec fn file_name_spec(p: Seq<char>) -> Option<Seq<char>> {
    match last_named(segments(p)) {
        Some(name) => if name == seq!['.', '.'] { None } else { Some(name) },
        None => None,
    }
}

/// The position of the last `.` in `s`.
pub open spec fn last_dot(s: Seq<char>) -> Option<int>
    decreases s.len(),
{
    if s.len() == 0 {
        None
    } else if s.last() == '.' {
        Some(s.len() - 1)
    } else {
        last_dot(s.drop_last())
    }
}

/// The extension of a file name, as `Path::extension` gives it: what follows
/// the last dot, unless there is no dot or the only dot starts the name.
pub open spec fn name_extension(name: Seq<char>) -> Option<Seq<char>> {
    match last_dot(name) {
        Some(i) => if i == 0 { None } else { Some(name.skip(i + 1)) },
        None => None,
    }
}

/// The extension of the final component of a path.
pub open spec fn path_extension(p: Seq<char>) -> Option<Seq<char>> {
    match file_name_spec(p) {
        Some(name) => name_extension(name),
        None => None,
    }
}

/// `PathBuf::join`: an absolute `name` replaces `dir`; otherwise a slash is
/// put between them unless `dir` is empty or already ends in one.
pub open spec fn join_spec(dir: Seq<char>, name: Seq<char>) -> Seq<char> {
    if name.len() > 0 && name[0] == '/' {
        name
    } else if dir.len() == 0 || dir.last() == '/' {
        dir + name
    } else {
        dir + seq!['/'] + name
    }
}

/// `s` holds no `c`.
pub open spec fn lacks(s: Seq<char>, c: char) -> bool {
    forall|i: int| 0 <= i < s.len() ==> #[trigger] s[i] != c
}

proof fn lemma_segments_append_plain(a: Seq<char>, b: Seq<char>)
    requires
        lacks(b, '/'),
    ensures
        segments(a).len() >= 1,
        segments(a + b) == segments(a).update(segments(a).len() - 1, segments(a).last() + b),
    decreases b.len(),
{
    lemma_segments_len(a);
    if b.len() == 0 {
        assert(a + b =~= a);
        assert(segments(a).last() + b =~= segments(a).last());
        assert(segments(a).update(segments(a).len() - 1, segments(a).last()) =~= segments(a));
    } else {
        let b0 = b.drop_last();
        assert(lacks(b0, '/'));
        lemma_segments_append_plain(a, b0);
        assert((a + b).drop_last() =~= a + b0);
        assert((a + b).last() == b.last());
        assert(b.last() != '/');
        let prev = segments(a + b0);
        lemma_segments_len(a + b0);
        assert(segments(a + b) == prev.update(prev.len() - 1, prev.last().push(b.last())));
        assert(segments(a).last() + b0 + seq![b.last()] =~= segments(a).last() + b);
        assert(prev.last().push(b.last()) =~= segments(a).last() + b);
        assert(segments(a + b) =~= segments(a).update(segments(a).len() - 1, segments(a).last() + b));
    }
}

proof fn lemma_segments_len(p: Seq<char>)
    ensures
        segments(p).len() >= 1,
    decreases p.len(),
{
    if p.len() > 0 {
        lemma_segments_len(p.drop_last());
    }
}

/// The last component of `join_spec(dir, name)` is `name`, for a name that
/// has no slash.
proof fn lemma_join_last_segment(dir: Seq<char>, name: Seq<char>)
    requires
        lacks(name, '/'),
    ensures
        segments(join_spec(dir, name)).len() >= 1,
        segments(join_spec(dir, name)).last() == name,
{
    lemma_segments_len(dir);
    if name.len() > 0 && name[0] == '/' {
        assert(name[0] != '/');
    } else if dir.len() == 0 {
        assert(dir + name =~= Seq::<char>::empty() + name);
        lemma_segments_append_plain(dir, name);
        assert(segments(dir) =~= seq![Seq::<char>::empty()]);
        assert(Seq::<char>::empty() + name =~= name);
    } else if dir.last() == '/' {
        lemma_segments_append_plain(dir, name);
        assert(dir.drop_last().push(dir.last()) =~= dir);
        assert(segments(dir).last() =~= Seq::<char>::empty());
        assert(Seq::<char>::empty() + name =~= name);
    } else {
        let with_slash = dir + seq!['/'];
        assert(with_slash.drop_last() =~= dir);
        assert(segments(with_slash) == segments(dir).push(Seq::<char>::empty()));
        lemma_segments_append_plain(with_slash, name);
        assert(dir + seq!['/'] + name =~= with_slash + name);
        assert(Seq::<char>::empty() + name =~= name);
    }
}

proof fn lemma_last_dot_none(s: Seq<char>)
    requires
        lacks(s, '.'),
    ensures
        last_dot(s) is None,
    decreases s.len(),
{
    if s.len() > 0 {
        assert(lacks(s.drop_last(), '.'));
        lemma_last_dot_none(s.drop_last());
    }
}

proof fn lemma_last_dot_after(a: Seq<char>, b: Seq<char>)
    requires
        lacks(b, '.'),
    ensures
        last_dot(a + seq!['.'] + b) == Some(a.len() as int),
    decreases b.len(),
{
    if b.len() == 0 {
        assert(a + seq!['.'] + b =~= a.push('.'));
    } else {
        assert(lacks(b.drop_last(), '.'));
        lemma_last_dot_after(a, b.drop_last());
        assert((a + seq!['.'] + b).drop_last() =~= a + seq!['.'] + b.drop_last());
    }
}

proof fn lemma_last_dot_props(s: Seq<char>)
    ensures
        last_dot(s) matches Some(i) ==> 0 <= i < s.len() && lacks(s.skip(i + 1), '.'),
    decreases s.len(),
{
    if s.len() > 0 {
        if s.last() == '.' {
            assert(s.skip(s.len() as int) =~= Seq::<char>::empty());
        } else {
            lemma_last_dot_props(s.drop_last());
            if let Some(i) = last_dot(s) {
                assert(s.skip(i + 1) =~= s.drop_last().skip(i + 1).push(s.last()));
            }
        }
    }
}

proof fn lemma_extension_plain(name: Seq<char>)
    ensures
        name_extension(name) matches Some(e) ==> lacks(e, '.') && (lacks(name, '/') ==> lacks(e, '/')),
{
    lemma_last_dot_props(name);
    if let Some(i) = last_dot(name) {
        if i > 0 && lacks(name, '/') {
            let e = name.skip(i + 1);
            assert forall|k: int| 0 <= k < e.len() implies #[trigger] e[k] != '/' by {
                assert(e[k] == name[i + 1 + k]);
            }
        }
    }
}

proof fn lemma_segments_lack_slash(p: Seq<char>)
    ensures
        forall|i: int| 0 <= i < segments(p).len() ==> lacks(#[trigger] segments(p)[i], '/'),
    decreases p.len(),
{
    if p.len() > 0 {
        lemma_segments_lack_slash(p.drop_last());
        lemma_segments_len(p.drop_last());
        let prev = segments(p.drop_last());
        if p.last() != '/' {
            assert(lacks(prev.last(), '/'));
            assert(lacks(prev.last().push(p.last()), '/'));
        }
    }
}

proof fn lemma_last_named_member(segs: Seq<Seq<char>>)
    ensures
        last_named(segs) matches Some(n) ==> exists|i: int| 0 <= i < segs.len() && #[trigger] segs[i] == n,
    decreases segs.len(),
{
    if segs.len() > 0 {
        lemma_last_named_member(segs.drop_last());
        if let Some(n) = last_named(segs.drop_last()) {
            if is_skipped_segment(segs.last()) {
                let i = choose|i: int| 0 <= i < segs.drop_last().len() && #[trigger] segs.drop_last()[i] == n;
                assert(segs[i] == n);
            }
        }
        if !is_skipped_segment(segs.last()) {
            assert(segs[segs.len() - 1] == segs.last());
        }
    }
}

/// A file name has no slash.
proof fn lemma_file_name_plain(p: Seq<char>)
    ensures
        file_name_spec(p) matches Some(n) ==> lacks(n, '/'),
{
    lemma_segments_lack_slash(p);
    lemma_last_named_member(segments(p));
}

/// Joining `stem + suffix` onto a directory, where `stem` is a non-empty run
/// of characters other than `/` and `.`, and `suffix` is a dot and an
/// extension (or nothing), gives a path whose extension is that of `suffix`.
pub proof fn lemma_joined_extension(dir: Seq<char>, stem: Seq<char>, ext: Option<Seq<char>>)
    requires
        stem.len() > 0,
        lacks(stem, '/'),
        lacks(stem, '.'),
        ext matches Some(e) ==> lacks(e, '/') && lacks(e, '.'),
    ensures
        path_extension(join_spec(dir, stem + match ext { Some(e) => seq!['.'] + e, None => Seq::<char>::empty() })) == ext,
{
    let suffix = match ext { Some(e) => seq!['.'] + e, None => Seq::<char>::empty() };
    let name = stem + suffix;
    assert(lacks(name, '/')) by {
        assert forall|i: int| 0 <= i < name.len() implies #[trigger] name[i] != '/' by {
            if i >= stem.len() {
                match ext {
                    Some(e) => {
                        if i > stem.len() {
                            assert(name[i] == e[i - stem.len() - 1]);
                        }
                    },
                    None => {},
                }
            }
        }
    }
    lemma_join_last_segment(dir, name);
    let segs = segments(join_spec(dir, name));
    assert(!is_skipped_segment(name)) by {
        if name == seq!['.'] {
            assert(name[0] == stem[0]);
        }
    }
    assert(last_named(segs) == Some(name));
    assert(name != seq!['.', '.']) by {
        assert(name[0] == stem[0]);
    }
    assert(file_name_spec(join_spec(dir, name)) == Some(name));
    match ext {
        Some(e) => {
            assert(name =~= stem + seq!['.'] + e);
            lemma_last_dot_after(stem, e);
            assert(name.skip(stem.len() as int + 1) =~= e);
        },
        None => {
            assert(name =~= stem);
            lemma_last_dot_none(stem);
        },
    }
}

/// The extension of a path has neither slash nor dot.
pub proof fn lemma_path_extension_plain(p: Seq<char>)
    ensures
        path_extension(p) matches Some(e) ==> lacks(e, '/') && lacks(e, '.'),
{
    lemma_file_name_plain(p);
    if let Some(n) = file_name_spec(p) {
        lemma_extension_plain(n);
    }
}

fn is_skipped_run(s: &str, start: usize, end: usize) -> (r: bool)
    requires
        start <= end <= s@.len(),
    ensures
        r == is_skipped_segment(s@.subrange(start as int, end as int)),
{
    if start == end {
        assert(s@.subrange(start as int, end as int).len() == 0);
        true
    } else if end - start == 1 {
        let c = s.get_char(start);
        if c == '.' {
            assert(s@.subrange(start as int, end as int) =~= seq!['.']);
            true
        } else {
            assert(s@.subrange(start as int, end as int)[0] != seq!['.'][0]);
            false
        }
    } else {
        assert(s@.subrange(start as int, end as int).len() != seq!['.'].len());
        false
    }
}

/// The final component of `path`, as `Path::file_name` gives it.
pub fn file_name(path: &str) -> (r: Option<String>)
    ensures
        match r {
            Some(name) => file_name_spec(path@) == Some(name@),
            None => file_name_spec(path@) is None,
        },
{
    let n = path.unicode_len();
    let mut cur_start: usize = 0;
    let mut named: Option<(usize, usize)> = None;
    let mut i: usize = 0;
    proof {
        assert(path@.take(0) =~= Seq::<char>::empty());
        assert(segments(path@.take(0)).drop_last() =~= Seq::<Seq<char>>::empty());
    }
    while i < n
        invariant
            n == path@.len(),
            cur_start <= i <= n,
            segments(path@.take(i as int)).len() >= 1,
            segments(path@.take(i as int)).last() =~= path@.subrange(cur_start as int, i as int),
            match named {
                Some((a, b)) => a <= b <= n && last_named(segments(path@.take(i as int)).drop_last())
                    == Some(path@.subrange(a as int, b as int)),
                None => last_named(segments(path@.take(i as int)).drop_last()) is None,
            },
        decreases n - i,
    {
        let c = path.get_char(i);
        let ghost prev = segments(path@.take(i as int));
        assert(path@.take(i + 1).drop_last() =~= path@.take(i as int));
        assert(path@.take(i + 1).last() == c);
        if c == '/' {
            let skipped = is_skipped_run(path, cur_start, i);
            proof {
                assert(segments(path@.take(i + 1)) == prev.push(Seq::<char>::empty()));
                assert(segments(path@.take(i + 1)).drop_last() =~= prev);
            }
            if !skipped {
                named = Some((cur_start, i));
            }
            cur_start = i + 1;
            assert(path@.subrange(cur_start as int, i + 1) =~= Seq::<char>::empty());
        } else {
            proof {
                let next = segments(path@.take(i + 1));
                assert(next == prev.update(prev.len() - 1, prev.last().push(c)));
                assert(next.drop_last() =~= prev.drop_last());
                assert(next.last() =~= path@.subrange(cur_start as int, i + 1));
            }
        }
        i = i + 1;
    }
    assert(path@.take(n as int) =~= path@);
    let skipped = is_skipped_run(path, cur_start, n);
    let result: Option<(usize, usize)> = if skipped { named } else { Some((cur_start, n)) };
    match result {
        Some((a, b)) => {
            let part = path.substring_char(a, b);
            if b - a == 2 && part.get_char(0) == '.' && part.get_char(1) == '.' {
                assert(part@ =~= seq!['.', '.']);
                None
            } else {
                proof {
                    if part@ == seq!['.', '.'] {
                        assert(part@.len() == 2 && part@[0] == '.' && part@[1] == '.');
                    }
                }
                Some(part.to_owned())
            }
        },
        None => None,
    }
}

/// The extension of a file name, as `Path::extension` gives it.
pub fn extension_of_name(name: &str) -> (r: Option<String>)
    ensures
        match r {
            Some(e) => name_extension(name@) == Some(e@),
            None => name_extension(name@) is None,
        },
{
    let n = name.unicode_len();
    let mut i: usize = n;
    assert(name@.take(n as int) =~= name@);
    while i > 0
        invariant
            n == name@.len(),
            i <= n,
            last_dot(name@) == last_dot(name@.take(i as int)),
        decreases i,
    {
        let c = name.get_char(i - 1);
        assert(name@.take(i as int).drop_last() =~= name@.take(i - 1));
        if c == '.' {
            if i - 1 == 0 {
                return None;
            }
            let e = name.substring_char(i, n);
            assert(e@ =~= name@.skip(i as int));
            return Some(e.to_owned());
        }
        i = i - 1;
    }
    None
}

/// The extension of the final component of `path`.
pub fn path_extension_of(path: &str) -> (r: Option<String>)
    ensures
        match r {
            Some(e) => path_extension(path@) == Some(e@),
            None => path_extension(path@) is None,
        },
{
    match file_name(path) {
        Some(name) => extension_of_name(name.as_str()),
        None => None,
    }
}

/// `PathBuf::join` on slash-separated paths.
pub fn join_path(dir: &str, name: &str) -> (r: String)
    ensures
        r@ == join_spec(dir@, name@),
{
    let n = name.unicode_len();
    if n > 0 && name.get_char(0) == '/' {
        return name.to_owned();
    }
    let d = dir.unicode_len();
    let mut r = dir.to_owned();
    if !(d == 0 || dir.get_char(d - 1) == '/') {
        r.append("/");
        proof {
            reveal_strlit("/");
        }
    }
    r.append(name);
    r
}

} // verus!
