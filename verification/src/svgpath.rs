use vstd::prelude::*;

verus! {

/// Whether a character opens a new path command in SVG path text.
pub open spec fn is_command_char(c: char) -> bool {
    c == 'M' || c == 'C' || c == 'L' || c == 'Z'
}

/// The command-delimited segments of the characters from position `i`
/// on, the current segment having started at `start`: each command
/// character first closes the running segment, then opens a new one
/// with itself; a nonempty trailing segment is kept.
pub open spec fn segments_from(sc: Seq<char>, i: int, start: int) -> Seq<Seq<char>>
    decreases sc.len() - i,
{
    if i >= sc.len() {
        if sc.len() - start > 0 {
            seq![sc.subrange(start, sc.len() as int)]
        } else {
            Seq::empty()
        }
    } else if is_command_char(sc[i]) {
        seq![sc.subrange(start, i)] + segments_from(sc, i + 1, i)
    } else {
        segments_from(sc, i + 1, start)
    }
}

/// Splits an SVG path string into its command-delimited segments, each
/// beginning with its command character; text before the first command
/// becomes a leading segment of its own, empty when the string starts
/// with a command.
pub fn get_segments(path_string: String) -> (r: Vec<String>)
    ensures
        r.deep_view() == segments_from(path_string@, 0, 0),
{
    let ghost sc = path_string@;
    let s = path_string.as_str();
    let n = s.unicode_len();
    let mut segments: Vec<String> = Vec::new();
    proof {
        assert(segments.deep_view() =~= Seq::<Seq<char>>::empty());
        assert(Seq::<Seq<char>>::empty() + segments_from(sc, 0, 0) =~= segments_from(sc, 0, 0));
    }
    let mut seg_start: usize = 0;
    let mut i: usize = 0;
    while i < n
        invariant
            seg_start <= i <= n,
            n == sc.len(),
            sc == path_string@,
            s@ == sc,
            segments_from(sc, 0, 0) == segments.deep_view() + segments_from(
                sc,
                i as int,
                seg_start as int,
            ),
        decreases n - i,
    {
        let c = s.get_char(i);
        if c == 'M' || c == 'C' || c == 'L' || c == 'Z' {
            let piece = s.substring_char(seg_start, i).to_owned();
            let ghost before = segments.deep_view();
            crate::prim::push_item(&mut segments, piece);
            proof {
                assert(piece@ == sc.subrange(seg_start as int, i as int));
                assert(segments_from(sc, i as int, seg_start as int) == seq![
                    sc.subrange(seg_start as int, i as int),
                ] + segments_from(sc, i as int + 1, i as int));
                assert(segments.deep_view() + segments_from(sc, i as int + 1, i as int) =~= before
                    + segments_from(sc, i as int, seg_start as int));
            }
            seg_start = i;
        }
        i += 1;
    }
    if n > seg_start {
        let piece = s.substring_char(seg_start, n).to_owned();
        crate::prim::push_item(&mut segments, piece);
        proof {
            assert(segments_from(sc, n as int, seg_start as int) == seq![
                sc.subrange(seg_start as int, sc.len() as int),
            ]);
            assert(segments.deep_view() =~= segments_from(sc, 0, 0));
        }
    } else {
        proof {
            assert(segments.deep_view() + segments_from(sc, n as int, seg_start as int)
                =~= segments.deep_view());
        }
    }
    segments
}

} // verus!
