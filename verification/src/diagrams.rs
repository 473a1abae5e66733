//! Inline diagram rewriting: where a fragment body holds rendered diagram
//! blocks, each block is replaced by a reference to its rendered image.
//! Rendering itself, and writing the images, live outside the crate; the
//! rewrite takes the rendered results as plain values.

use vstd::prelude::*;
use crate::chars::{matches_at, str_to_chars, find_sub_from};
use crate::discovery::{first_occ, lemma_first_occ_is, lemma_first_occ_none, lemma_first_occ_sound,
    lemma_matches_at_skip};

verus! {

/// The text with every occurrence of `pat` replaced by `rep`, scanning left
/// to right; an empty pattern leaves the text unchanged.
pub open spec fn replace_all_spec(c: Seq<char>, pat: Seq<char>, rep: Seq<char>) -> Seq<char>
    decreases c.len(),
    via replace_all_decreases
{
    if pat.len() == 0 {
        c
    } else {
        match first_occ(c, pat) {
            None => c,
            Some(i) => c.take(i) + rep + replace_all_spec(
                c.skip(i + pat.len() as int),
                pat,
                rep,
            ),
        }
    }
}

#[via_fn]
proof fn replace_all_decreases(c: Seq<char>, pat: Seq<char>, rep: Seq<char>) {
    lemma_first_occ_sound(c, pat);
}

/// The image reference a rewritten block becomes.
pub open spec fn image_ref_spec(path: Seq<char>) -> Seq<char> {
    "![Diagram]("@ + path + ")"@
}

/// The body after rewriting each rendered block, in order: every occurrence
/// of a block's text becomes a reference to its rendered image.
pub open spec fn rewrite_spec(c: Seq<char>, rendered: Seq<(Seq<char>, Seq<char>)>) -> Seq<char>
    decreases rendered.len(),
{
    if rendered.len() == 0 {
        c
    } else {
        rewrite_spec(
            replace_all_spec(c, rendered[0].0, image_ref_spec(rendered[0].1)),
            rendered.skip(1),
        )
    }
}

/// Replaces every occurrence of `pat` in `content` by `rep`.
#[verifier::loop_isolation(false)]
pub fn replace_all(content: &str, pat: &str, rep: &str) -> (r: String)
    ensures
        r@ == replace_all_spec(content@, pat@, rep@),
{
    if pat.unicode_len() == 0 {
        return content.to_owned();
    }
    let v = str_to_chars(content);
    let p = str_to_chars(pat);
    let n = content.unicode_len();
    let plen = pat.unicode_len();
    let mut out = String::new();
    let mut pos: usize = 0;
    proof {
        assert(v@.skip(0) =~= v@);
        assert(out@ + replace_all_spec(v@, pat@, rep@) =~= replace_all_spec(v@, pat@, rep@));
    }
    while pos < n
        invariant
            pos <= n,
            out@ + replace_all_spec(v@.skip(pos as int), pat@, rep@) == replace_all_spec(
                v@,
                pat@,
                rep@,
            ),
        decreases n - pos,
    {
        let ghost tail = v@.skip(pos as int);
        let ghost out_old = out@;
        match find_sub_from(&v, &p, pos) {
            Some(j) => {
                proof {
                    lemma_matches_at_skip(v@, pat@, pos as int, j - pos);
                    assert forall|t: int| 0 <= t < j - pos implies !matches_at(
                        tail,
                        pat@,
                        t,
                    ) by {
                        lemma_matches_at_skip(v@, pat@, pos as int, t);
                    }
                    lemma_first_occ_is(tail, pat@, j - pos);
                }
                let piece = content.substring_char(pos, j);
                out.append(piece);
                out.append(rep);
                proof {
                    assert(piece@ =~= tail.take(j - pos));
                    assert(tail.skip(j - pos + pat@.len()) =~= v@.skip(j + plen));
                    assert(out@ + replace_all_spec(v@.skip(j + plen), pat@, rep@) =~= out_old
                        + replace_all_spec(tail, pat@, rep@));
                }
                pos = j + plen;
            },
            None => {
                proof {
                    assert forall|t: int| 0 <= t implies !matches_at(tail, pat@, t) by {
                        lemma_matches_at_skip(v@, pat@, pos as int, t);
                    }
                    lemma_first_occ_none(tail, pat@);
                }
                let piece = content.substring_char(pos, n);
                out.append(piece);
                proof {
                    assert(piece@ =~= tail);
                    assert(out@ =~= out_old + replace_all_spec(tail, pat@, rep@));
                    assert(v@.skip(n as int).len() == 0);
                    assert(replace_all_spec(v@.skip(n as int), pat@, rep@) =~= v@.skip(n as int));
                    assert(out@ + replace_all_spec(v@.skip(n as int), pat@, rep@) =~= out@);
                }
                pos = n;
            },
        }
    }
    proof {
        assert(v@.skip(n as int).len() == 0);
        assert(replace_all_spec(v@.skip(pos as int), pat@, rep@) =~= v@.skip(pos as int));
        assert(out@ + replace_all_spec(v@.skip(pos as int), pat@, rep@) =~= out@);
    }
    out
}

/// Rewrites fragment bodies once the external renderer has produced the
/// images of their diagram blocks.
pub struct DiagramProcessor {
    pub output_dir: String,
}

impl DiagramProcessor {
    pub fn new(output_dir: String) -> (r: DiagramProcessor)
        ensures
            r.output_dir@ == output_dir@,
    {
        DiagramProcessor { output_dir }
    }

    /// Where one rendered diagram lands: in the output directory, named
    /// after the source's stem, with the artifact's extension.
    pub fn diagram_output_path(&self, stem: &str, ext: &str) -> (r: String)
        ensures
            r@ == self.output_dir@ + "/"@ + stem@ + "."@ + ext@,
    {
        let mut s = self.output_dir.clone();
        s.append("/");
        s.append(stem);
        s.append(".");
        s.append(ext);
        s
    }

    /// Replaces each rendered diagram block of a body by a reference to its
    /// image, in rendering order.  Blocks the renderer could not handle are
    /// left out of `rendered` and stay in the body verbatim.
    #[verifier::loop_isolation(false)]
    pub fn process_inline_mermaid(&self, content: &str, rendered: &Vec<(String, String)>) -> (r:
        String)
        ensures
            r@ == rewrite_spec(content@, rendered.deep_view()),
    {
        let ghost rs = rendered.deep_view();
        let mut current = content.to_owned();
        let mut i: usize = 0;
        proof {
            assert(rs.skip(0) =~= rs);
        }
        while i < rendered.len()
            invariant
                i <= rs.len(),
                rewrite_spec(content@, rs) == rewrite_spec(current@, rs.skip(i as int)),
            decreases rs.len() - i,
        {
            proof {
                assert(rs[i as int] == (rendered@[i as int].0@, rendered@[i as int].1@));
                assert(rs.skip(i as int)[0] == rs[i as int]);
                assert(rs.skip(i as int).skip(1) =~= rs.skip(i + 1));
            }
            let (block, path) = &rendered[i];
            let mut image_ref = String::from_str("![Diagram](");
            image_ref.append(path.as_str());
            image_ref.append(")");
            proof {
                assert(image_ref@ =~= image_ref_spec(rendered@[i as int].1@));
            }
            current = replace_all(current.as_str(), block.as_str(), image_ref.as_str());
            i += 1;
        }
        proof {
            assert(rs.skip(rs.len() as int).len() == 0);
        }
        current
    }
}

} // verus!
