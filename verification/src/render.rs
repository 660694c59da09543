//! The Renderer Invoker's decisions.
//!
//! The renderer runs as an external process: it consumes a graph
//! description on its input stream and produces raster bytes on its
//! output stream. The spawning, writing and reading live outside the
//! library; the library decides the argument list the process receives
//! and what becomes of the spawn's outcome.

use vstd::prelude::*;

use crate::text::push_char;

verus! {

/// The renderer process could not be started; the request degrades to
/// a reported error instead of ending the long-lived process.
#[derive(Debug, PartialEq, Eq, Structural, Clone, Copy)]
pub enum RenderError {
    SpawnFailed,
}

impl RenderError {
    /// The user-facing wording of the error.
    pub fn message(&self) -> (r: String)
        ensures
            r@ == "failed to start the renderer"@,
    {
        String::from_str("failed to start the renderer")
    }
}

/// Whether a character separates flag tokens: the ASCII whitespace
/// characters.
pub open spec fn is_space(c: char) -> bool {
    c == ' ' || c == '\t' || c == '\n' || c == '\x0C' || c == '\r'
}

/// Splitting a raw flag string at whitespace, accumulating the current
/// token: a run of whitespace ends the token under construction, and
/// only non-empty tokens are emitted.
pub open spec fn split_ws_acc(s: Seq<char>, cur: Seq<char>) -> Seq<Seq<char>>
    decreases s.len(),
{
    if s.len() == 0 {
        if cur.len() == 0 {
            Seq::empty()
        } else {
            seq![cur]
        }
    } else if is_space(s[0]) {
        if cur.len() == 0 {
            split_ws_acc(s.drop_first(), Seq::empty())
        } else {
            seq![cur] + split_ws_acc(s.drop_first(), Seq::empty())
        }
    } else {
        split_ws_acc(s.drop_first(), cur.push(s[0]))
    }
}

/// The tokens of a raw flag string: its maximal non-empty runs of
/// non-whitespace characters, in order.
pub open spec fn split_whitespace_spec(s: Seq<char>) -> Seq<Seq<char>> {
    split_ws_acc(s, Seq::empty())
}

/// Every token of the whitespace split is non-empty and free of
/// whitespace: the split never hands the renderer an empty argument.
pub proof fn lemma_split_tokens(s: Seq<char>, cur: Seq<char>)
    requires
        forall|k: int| 0 <= k < cur.len() ==> !is_space(#[trigger] cur[k]),
    ensures
        forall|m: int|
            0 <= m < split_ws_acc(s, cur).len() ==> #[trigger] split_ws_acc(s, cur)[m].len() > 0
                && (forall|k: int|
                0 <= k < split_ws_acc(s, cur)[m].len() ==> !is_space(
                    #[trigger] split_ws_acc(s, cur)[m][k],
                )),
    decreases s.len(),
{
    if s.len() == 0 {
        if cur.len() > 0 {
            let out = split_ws_acc(s, cur);
            assert(out[0] == cur);
        }
    } else if is_space(s[0]) {
        lemma_split_tokens(s.drop_first(), Seq::empty());
        if cur.len() > 0 {
            let out = split_ws_acc(s, cur);
            let rest = split_ws_acc(s.drop_first(), Seq::empty());
            assert forall|m: int| 0 <= m < out.len() implies #[trigger] out[m].len() > 0 && (
            forall|k: int| 0 <= k < out[m].len() ==> !is_space(#[trigger] out[m][k])) by {
                if m == 0 {
                    assert(out[0] == cur);
                } else {
                    assert(out[m] == rest[m - 1]);
                }
            }
        }
    } else {
        let grown = cur.push(s[0]);
        assert forall|k: int| 0 <= k < grown.len() implies !is_space(#[trigger] grown[k]) by {
            if k < cur.len() {
                assert(grown[k] == cur[k]);
            } else {
                assert(grown[k] == s[0]);
            }
        }
        lemma_split_tokens(s.drop_first(), grown);
        assert(split_ws_acc(s, cur) == split_ws_acc(s.drop_first(), grown));
    }
}

/// Caller-supplied renderer flags: nothing for an absent argument,
/// otherwise the argument whitespace-split into discrete tokens. The
/// tokens are passed to the renderer as separate process arguments,
/// never through a shell.
pub fn split_extra_args(extra: &Option<String>) -> (toks: Vec<String>)
    ensures
        match extra {
            Some(s) => toks.deep_view() == split_whitespace_spec(s@),
            None => toks.deep_view() == Seq::<Seq<char>>::empty(),
        },
{
    match extra {
        None => {
            let toks: Vec<String> = Vec::new();
            proof {
                assert(toks.deep_view() =~= Seq::<Seq<char>>::empty());
            }
            toks
        },
        Some(s) => {
            let n = s.as_str().unicode_len();
            let mut toks: Vec<String> = Vec::new();
            let mut cur = String::new();
            let mut i: usize = 0;
            proof {
                assert(s@.skip(0) =~= s@);
                assert(toks.deep_view() + split_ws_acc(s@, cur@) =~= split_ws_acc(s@, cur@));
            }
            while i < n
                invariant
                    n == s@.len(),
                    i <= n,
                    split_whitespace_spec(s@) == toks.deep_view() + split_ws_acc(
                        s@.skip(i as int),
                        cur@,
                    ),
                decreases n - i,
            {
                let c = s.as_str().get_char(i);
                proof {
                    assert(s@.skip(i as int)[0] == s@[i as int]);
                    assert(s@.skip(i as int).drop_first() =~= s@.skip(i as int + 1));
                }
                let sep = c == ' ' || c == '\t' || c == '\n' || c == '\x0C' || c == '\r';
                proof {
                    assert(sep == is_space(s@[i as int]));
                }
                if sep {
                    if !cur.as_str().is_empty() {
                        let ghost before = toks.deep_view();
                        let ghost done = cur@;
                        toks.push(cur);
                        cur = String::new();
                        proof {
                            assert(toks.deep_view() =~= before.push(done));
                            assert(before.push(done) + split_ws_acc(
                                s@.skip(i as int + 1),
                                Seq::empty(),
                            ) =~= before + (seq![done] + split_ws_acc(
                                s@.skip(i as int + 1),
                                Seq::empty(),
                            )));
                        }
                    } else {
                        proof {
                            assert(cur@ =~= Seq::<char>::empty());
                        }
                    }
                } else {
                    push_char(&mut cur, c);
                }
                i = i + 1;
            }
            proof {
                assert(s@.skip(n as int) =~= Seq::<char>::empty());
            }
            if !cur.as_str().is_empty() {
                let ghost before = toks.deep_view();
                let ghost done = cur@;
                toks.push(cur);
                proof {
                    assert(toks.deep_view() =~= before.push(done));
                    assert(before.push(done) =~= before + seq![done]);
                }
            } else {
                proof {
                    assert(cur@ =~= Seq::<char>::empty());
                    assert(toks.deep_view() + Seq::<Seq<char>>::empty() =~= toks.deep_view());
                }
            }
            toks
        },
    }
}

/// The renderer's argument list: the fixed raster-output flag first,
/// then the caller's extra tokens, in order.
pub fn renderer_args(extra_tokens: &Vec<String>) -> (args: Vec<String>)
    ensures
        args.deep_view() == seq!["-Tpng"@] + extra_tokens.deep_view(),
{
    let mut args: Vec<String> = Vec::new();
    args.push(String::from_str("-Tpng"));
    let mut i: usize = 0;
    proof {
        assert(args.deep_view() =~= seq!["-Tpng"@] + extra_tokens.deep_view().take(0));
    }
    while i < extra_tokens.len()
        invariant
            i <= extra_tokens@.len(),
            extra_tokens.deep_view().len() == extra_tokens@.len(),
            args.deep_view() == seq!["-Tpng"@] + extra_tokens.deep_view().take(i as int),
        decreases extra_tokens@.len() - i,
    {
        let ghost before = args.deep_view();
        args.push(extra_tokens[i].clone());
        proof {
            assert(args.deep_view() =~= before.push(extra_tokens.deep_view()[i as int]));
            assert(before.push(extra_tokens.deep_view()[i as int]) =~= seq!["-Tpng"@]
                + extra_tokens.deep_view().take(i as int + 1));
        }
        i = i + 1;
    }
    proof {
        assert(extra_tokens.deep_view().take(extra_tokens@.len() as int)
            =~= extra_tokens.deep_view());
    }
    args
}

/// The Renderer Invoker's outcome: whatever bytes the renderer wrote
/// are returned exactly as read — a renderer that echoes its input's
/// bytes back yields exactly those bytes. A renderer that could not be
/// spawned becomes a recoverable error; a renderer that exited non-zero
/// does not: its bytes are returned regardless.
pub fn render_outcome(output: Option<Vec<u8>>) -> (r: Result<Vec<u8>, RenderError>)
    ensures
        match output {
            Some(bytes) => r == Ok::<Vec<u8>, RenderError>(bytes),
            None => r == Err::<Vec<u8>, RenderError>(RenderError::SpawnFailed),
        },
{
    match output {
        Some(bytes) => Ok(bytes),
        None => Err(RenderError::SpawnFailed),
    }
}

} // verus!
