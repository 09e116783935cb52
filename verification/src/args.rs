//! Two-pass token processing. The first pass extracts global settings
//! and marks every token it consumed; the second pass threads one
//! running per-frame configuration through the remaining tokens,
//! snapshotting it into a frame job at every path token.

use vstd::prelude::*;

use crate::config::EncoderOptions;
use crate::config::FrameConfig;
use crate::config::FrameJob;
use crate::config::JobView;
use crate::config::jobs_view;
use crate::numparse::parse_centi_or;
use crate::numparse::parse_i32_or;
use crate::numparse::spec_parse_centi_or;
use crate::numparse::spec_parse_i32_or;
use crate::sequence::apply_transform;
use crate::sequence::transform_spec;

verus! {

broadcast use vstd::string::group_string_axioms;

/// The values of a sequence of strings.
pub open spec fn strs_view(s: Seq<String>) -> Seq<Seq<char>> {
    s.map_values(|x: String| x@)
}

/// Everything the first pass produces: the container-wide settings, the
/// base per-frame configuration, the output path (empty when none was
/// given), the loop count, the requested sequence transformation, and
/// which tokens the pass consumed.
pub struct Globals {
    pub options: EncoderOptions,
    pub base_config: FrameConfig,
    pub output_path: String,
    pub loop_count: i32,
    pub reverse: bool,
    pub ping_pong: bool,
    pub consumed: Vec<bool>,
}

/// The mathematical value of `Globals`.
pub struct GlobalsView {
    pub options: EncoderOptions,
    pub base_config: FrameConfig,
    pub output_path: Seq<char>,
    pub loop_count: i32,
    pub reverse: bool,
    pub ping_pong: bool,
    pub consumed: Seq<bool>,
}

impl View for Globals {
    type V = GlobalsView;

    open spec fn view(&self) -> GlobalsView {
        GlobalsView {
            options: self.options,
            base_config: self.base_config,
            output_path: self.output_path@,
            loop_count: self.loop_count,
            reverse: self.reverse,
            ping_pong: self.ping_pong,
            consumed: self.consumed@,
        }
    }
}

/// The first pass's starting state over `n` tokens: defaults everywhere,
/// nothing consumed.
pub open spec fn init_globals(n: nat) -> GlobalsView {
    GlobalsView {
        options: EncoderOptions::spec_default(),
        base_config: FrameConfig::spec_default(),
        output_path: Seq::<char>::empty(),
        loop_count: 0,
        reverse: false,
        ping_pong: false,
        consumed: Seq::new(n, |k: int| false),
    }
}

/// Marks one token consumed.
pub open spec fn mark1(c: Seq<bool>, i: int) -> Seq<bool> {
    c.update(i, true)
}

/// Marks a flag token and its value token consumed.
pub open spec fn mark2(c: Seq<bool>, i: int) -> Seq<bool> {
    c.update(i, true).update(i + 1, true)
}

/// The first pass from position `i` onwards. A value-taking global flag
/// with no following token is left for the second pass, which reports it
/// as unknown.
pub open spec fn pass1_from(toks: Seq<String>, i: int, g: GlobalsView) -> GlobalsView
    decreases toks.len() - i when 0 <= i
{
    if i >= toks.len() {
        g
    } else {
        let t = toks[i]@;
        let two = i + 1 < toks.len();
        if t == "-o"@ {
            if two {
                pass1_from(
                    toks,
                    i + 2,
                    GlobalsView { output_path: toks[i + 1]@, consumed: mark2(g.consumed, i), ..g },
                )
            } else {
                pass1_from(toks, i + 1, g)
            }
        } else if t == "-kmin"@ {
            if two {
                pass1_from(
                    toks,
                    i + 2,
                    GlobalsView {
                        options: EncoderOptions {
                            kmin: spec_parse_i32_or(toks[i + 1]@, 0),
                            ..g.options
                        },
                        consumed: mark2(g.consumed, i),
                        ..g
                    },
                )
            } else {
                pass1_from(toks, i + 1, g)
            }
        } else if t == "-kmax"@ {
            if two {
                pass1_from(
                    toks,
                    i + 2,
                    GlobalsView {
                        options: EncoderOptions {
                            kmax: spec_parse_i32_or(toks[i + 1]@, 0),
                            ..g.options
                        },
                        consumed: mark2(g.consumed, i),
                        ..g
                    },
                )
            } else {
                pass1_from(toks, i + 1, g)
            }
        } else if t == "-loop"@ {
            if two {
                pass1_from(
                    toks,
                    i + 2,
                    GlobalsView {
                        loop_count: spec_parse_i32_or(toks[i + 1]@, 0),
                        consumed: mark2(g.consumed, i),
                        ..g
                    },
                )
            } else {
                pass1_from(toks, i + 1, g)
            }
        } else if t == "-near_lossless"@ {
            if two {
                pass1_from(
                    toks,
                    i + 2,
                    GlobalsView {
                        base_config: FrameConfig {
                            near_lossless: spec_parse_i32_or(toks[i + 1]@, 100),
                            ..g.base_config
                        },
                        consumed: mark2(g.consumed, i),
                        ..g
                    },
                )
            } else {
                pass1_from(toks, i + 1, g)
            }
        } else if t == "-min_size"@ {
            pass1_from(
                toks,
                i + 1,
                GlobalsView {
                    options: EncoderOptions { minimize_size: true, ..g.options },
                    consumed: mark1(g.consumed, i),
                    ..g
                },
            )
        } else if t == "-mixed"@ {
            pass1_from(
                toks,
                i + 1,
                GlobalsView {
                    options: EncoderOptions { allow_mixed: true, ..g.options },
                    base_config: FrameConfig { lossy: true, ..g.base_config },
                    consumed: mark1(g.consumed, i),
                    ..g
                },
            )
        } else if t == "-sharp_yuv"@ {
            pass1_from(
                toks,
                i + 1,
                GlobalsView {
                    base_config: FrameConfig { use_sharp_yuv: true, ..g.base_config },
                    consumed: mark1(g.consumed, i),
                    ..g
                },
            )
        } else if t == "-reverse"@ {
            pass1_from(
                toks,
                i + 1,
                GlobalsView { reverse: true, consumed: mark1(g.consumed, i), ..g },
            )
        } else if t == "-pingpong"@ {
            pass1_from(
                toks,
                i + 1,
                GlobalsView { ping_pong: true, consumed: mark1(g.consumed, i), ..g },
            )
        } else if t == "-v"@ {
            pass1_from(
                toks,
                i + 1,
                GlobalsView {
                    options: EncoderOptions { verbose: true, ..g.options },
                    consumed: mark1(g.consumed, i),
                    ..g
                },
            )
        } else if t == "-alpha_q"@ {
            if two {
                pass1_from(
                    toks,
                    i + 2,
                    GlobalsView {
                        base_config: FrameConfig {
                            alpha_quality: spec_parse_i32_or(toks[i + 1]@, 100),
                            ..g.base_config
                        },
                        consumed: mark2(g.consumed, i),
                        ..g
                    },
                )
            } else {
                pass1_from(toks, i + 1, g)
            }
        } else if t == "-alpha_method"@ {
            if two {
                pass1_from(
                    toks,
                    i + 2,
                    GlobalsView {
                        base_config: FrameConfig {
                            alpha_compression: spec_parse_i32_or(toks[i + 1]@, 1),
                            ..g.base_config
                        },
                        consumed: mark2(g.consumed, i),
                        ..g
                    },
                )
            } else {
                pass1_from(toks, i + 1, g)
            }
        } else if t == "-alpha_filter"@ {
            if two {
                pass1_from(
                    toks,
                    i + 2,
                    GlobalsView {
                        base_config: FrameConfig {
                            alpha_filtering: spec_parse_i32_or(toks[i + 1]@, 1),
                            ..g.base_config
                        },
                        consumed: mark2(g.consumed, i),
                        ..g
                    },
                )
            } else {
                pass1_from(toks, i + 1, g)
            }
        } else {
            pass1_from(toks, i + 1, g)
        }
    }
}

/// Decides whether a token equals an expected literal.
fn tok_is(t: &String, lit: &str) -> (r: bool)
    ensures
        r == (t@ == lit@),
{
    let s: String = lit.to_owned();
    *t == s
}

/// Runs the first pass over the whole token list.
#[verifier::loop_isolation(false)]
#[verifier::rlimit(100)]
#[verifier::spinoff_prover]
pub fn parse_globals(tokens: &Vec<String>) -> (g: Globals)
    ensures
        g@ == pass1_from(tokens@, 0, init_globals(tokens@.len() as nat)),
        g.consumed@.len() == tokens@.len(),
{
    let n: usize = tokens.len();
    let mut consumed: Vec<bool> = Vec::new();
    while consumed.len() < n
        invariant
            consumed@.len() <= n,
            forall|k: int| 0 <= k < consumed@.len() ==> !(#[trigger] consumed@[k]),
        decreases n - consumed@.len(),
    {
        consumed.push(false);
    }
    proof {
        assert(consumed@ =~= Seq::new(n as nat, |k: int| false));
    }
    let mut g: Globals = Globals {
        options: EncoderOptions::default(),
        base_config: FrameConfig::default(),
        output_path: String::new(),
        loop_count: 0,
        reverse: false,
        ping_pong: false,
        consumed,
    };
    proof {
        assert(g@ =~= init_globals(n as nat)) by {
            assert(g@.consumed =~= init_globals(n as nat).consumed);
        };
    }
    let ghost g0 = g@;
    let mut i: usize = 0;
    while i < n
        invariant
            0 <= i <= n,
            g@.consumed.len() == n,
            pass1_from(tokens@, 0, g0) == pass1_from(tokens@, i as int, g@),
        decreases n - i,
    {
        let two: bool = i + 1 < n;
        if tok_is(&tokens[i], "-o") {
            if two {
                g.output_path = tokens[i + 1].clone();
                g.consumed[i] = true;
                g.consumed[i + 1] = true;
                i = i + 2;
            } else {
                i = i + 1;
            }
        } else if tok_is(&tokens[i], "-kmin") {
            if two {
                g.options.kmin = parse_i32_or(tokens[i + 1].as_str(), 0);
                g.consumed[i] = true;
                g.consumed[i + 1] = true;
                i = i + 2;
            } else {
                i = i + 1;
            }
        } else if tok_is(&tokens[i], "-kmax") {
            if two {
                g.options.kmax = parse_i32_or(tokens[i + 1].as_str(), 0);
                g.consumed[i] = true;
                g.consumed[i + 1] = true;
                i = i + 2;
            } else {
                i = i + 1;
            }
        } else if tok_is(&tokens[i], "-loop") {
            if two {
                g.loop_count = parse_i32_or(tokens[i + 1].as_str(), 0);
                g.consumed[i] = true;
                g.consumed[i + 1] = true;
                i = i + 2;
            } else {
                i = i + 1;
            }
        } else if tok_is(&tokens[i], "-near_lossless") {
            if two {
                g.base_config.near_lossless = parse_i32_or(tokens[i + 1].as_str(), 100);
                g.consumed[i] = true;
                g.consumed[i + 1] = true;
                i = i + 2;
            } else {
                i = i + 1;
            }
        } else if tok_is(&tokens[i], "-min_size") {
            g.options.minimize_size = true;
            g.consumed[i] = true;
            i = i + 1;
        } else if tok_is(&tokens[i], "-mixed") {
            g.options.allow_mixed = true;
            g.base_config.lossy = true;
            g.consumed[i] = true;
            i = i + 1;
        } else if tok_is(&tokens[i], "-sharp_yuv") {
            g.base_config.use_sharp_yuv = true;
            g.consumed[i] = true;
            i = i + 1;
        } else if tok_is(&tokens[i], "-reverse") {
            g.reverse = true;
            g.consumed[i] = true;
            i = i + 1;
        } else if tok_is(&tokens[i], "-pingpong") {
            g.ping_pong = true;
            g.consumed[i] = true;
            i = i + 1;
        } else if tok_is(&tokens[i], "-v") {
            g.options.verbose = true;
            g.consumed[i] = true;
            i = i + 1;
        } else if tok_is(&tokens[i], "-alpha_q") {
            if two {
                g.base_config.alpha_quality = parse_i32_or(tokens[i + 1].as_str(), 100);
                g.consumed[i] = true;
                g.consumed[i + 1] = true;
                i = i + 2;
            } else {
                i = i + 1;
            }
        } else if tok_is(&tokens[i], "-alpha_method") {
            if two {
                g.base_config.alpha_compression = parse_i32_or(tokens[i + 1].as_str(), 1);
                g.consumed[i] = true;
                g.consumed[i + 1] = true;
                i = i + 2;
            } else {
                i = i + 1;
            }
        } else if tok_is(&tokens[i], "-alpha_filter") {
            if two {
                g.base_config.alpha_filtering = parse_i32_or(tokens[i + 1].as_str(), 1);
                g.consumed[i] = true;
                g.consumed[i + 1] = true;
                i = i + 2;
            } else {
                i = i + 1;
            }
        } else {
            i = i + 1;
        }
    }
    g
}

/// The second pass's state: the running configuration, the jobs emitted
/// so far, and the unrecognized option tokens reported so far.
pub struct CascadeView {
    pub cur: FrameConfig,
    pub jobs: Seq<JobView>,
    pub unknown: Seq<Seq<char>>,
}

/// The second pass's starting state.
pub open spec fn init_cascade(base: FrameConfig) -> CascadeView {
    CascadeView { cur: base, jobs: Seq::<JobView>::empty(), unknown: Seq::<Seq<char>>::empty() }
}

/// The second pass from position `i` onwards: tokens consumed by the
/// first pass are skipped; a per-frame option token updates the running
/// configuration; an unrecognized option is reported; any other token is
/// an image path and snapshots the running configuration into a job.
pub open spec fn pass2_from(
    toks: Seq<String>,
    consumed: Seq<bool>,
    i: int,
    st: CascadeView,
) -> CascadeView
    decreases toks.len() - i when 0 <= i
{
    if i >= toks.len() {
        st
    } else if consumed[i] {
        pass2_from(toks, consumed, i + 1, st)
    } else {
        let t = toks[i]@;
        if t.len() > 0 && t[0] == '-' {
            if t == "-lossy"@ {
                pass2_from(
                    toks,
                    consumed,
                    i + 1,
                    CascadeView { cur: FrameConfig { lossy: true, ..st.cur }, ..st },
                )
            } else if t == "-lossless"@ {
                pass2_from(
                    toks,
                    consumed,
                    i + 1,
                    CascadeView { cur: FrameConfig { lossy: false, ..st.cur }, ..st },
                )
            } else if t == "-q"@ {
                if i + 1 < toks.len() {
                    pass2_from(
                        toks,
                        consumed,
                        i + 2,
                        CascadeView {
                            cur: FrameConfig {
                                quality_centi: spec_parse_centi_or(toks[i + 1]@, 7500),
                                ..st.cur
                            },
                            ..st
                        },
                    )
                } else {
                    pass2_from(toks, consumed, i + 1, st)
                }
            } else if t == "-m"@ {
                if i + 1 < toks.len() {
                    pass2_from(
                        toks,
                        consumed,
                        i + 2,
                        CascadeView {
                            cur: FrameConfig {
                                method: spec_parse_i32_or(toks[i + 1]@, 4),
                                ..st.cur
                            },
                            ..st
                        },
                    )
                } else {
                    pass2_from(toks, consumed, i + 1, st)
                }
            } else if t == "-d"@ {
                if i + 1 < toks.len() {
                    pass2_from(
                        toks,
                        consumed,
                        i + 2,
                        CascadeView {
                            cur: FrameConfig {
                                duration: spec_parse_i32_or(toks[i + 1]@, 100),
                                ..st.cur
                            },
                            ..st
                        },
                    )
                } else {
                    pass2_from(toks, consumed, i + 1, st)
                }
            } else if t == "-exact"@ {
                pass2_from(
                    toks,
                    consumed,
                    i + 1,
                    CascadeView { cur: FrameConfig { exact: true, ..st.cur }, ..st },
                )
            } else if t == "-noexact"@ {
                pass2_from(
                    toks,
                    consumed,
                    i + 1,
                    CascadeView { cur: FrameConfig { exact: false, ..st.cur }, ..st },
                )
            } else {
                pass2_from(
                    toks,
                    consumed,
                    i + 1,
                    CascadeView { unknown: st.unknown.push(t), ..st },
                )
            }
        } else {
            pass2_from(
                toks,
                consumed,
                i + 1,
                CascadeView { jobs: st.jobs.push(JobView { path: t, config: st.cur }), ..st },
            )
        }
    }
}

/// Already-emitted jobs are frozen: the cascade only ever appends to the
/// job list, so later flag tokens cannot alter a job that was emitted
/// before them.
pub proof fn lemma_cascade_jobs_frozen(
    toks: Seq<String>,
    consumed: Seq<bool>,
    i: int,
    st: CascadeView,
)
    requires
        0 <= i,
    ensures
        st.jobs.len() <= pass2_from(toks, consumed, i, st).jobs.len(),
        pass2_from(toks, consumed, i, st).jobs.subrange(0, st.jobs.len() as int) == st.jobs,
        forall|k: int|
            0 <= k < st.jobs.len() ==> pass2_from(toks, consumed, i, st).jobs[k] == st.jobs[k],
    decreases toks.len() - i,
{
    let res = pass2_from(toks, consumed, i, st);
    if i >= toks.len() {
        assert(res.jobs.subrange(0, st.jobs.len() as int) =~= st.jobs);
    } else if consumed[i] {
        lemma_cascade_jobs_frozen(toks, consumed, i + 1, st);
    } else {
        let t = toks[i]@;
        if t.len() > 0 && t[0] == '-' {
            if t == "-lossy"@ {
                let st2 = CascadeView { cur: FrameConfig { lossy: true, ..st.cur }, ..st };
                lemma_cascade_jobs_frozen(toks, consumed, i + 1, st2);
            } else if t == "-lossless"@ {
                let st2 = CascadeView { cur: FrameConfig { lossy: false, ..st.cur }, ..st };
                lemma_cascade_jobs_frozen(toks, consumed, i + 1, st2);
            } else if t == "-q"@ {
                if i + 1 < toks.len() {
                    let st2 = CascadeView {
                        cur: FrameConfig {
                            quality_centi: spec_parse_centi_or(toks[i + 1]@, 7500),
                            ..st.cur
                        },
                        ..st
                    };
                    lemma_cascade_jobs_frozen(toks, consumed, i + 2, st2);
                } else {
                    lemma_cascade_jobs_frozen(toks, consumed, i + 1, st);
                }
            } else if t == "-m"@ {
                if i + 1 < toks.len() {
                    let st2 = CascadeView {
                        cur: FrameConfig { method: spec_parse_i32_or(toks[i + 1]@, 4), ..st.cur },
                        ..st
                    };
                    lemma_cascade_jobs_frozen(toks, consumed, i + 2, st2);
                } else {
                    lemma_cascade_jobs_frozen(toks, consumed, i + 1, st);
                }
            } else if t == "-d"@ {
                if i + 1 < toks.len() {
                    let st2 = CascadeView {
                        cur: FrameConfig {
                            duration: spec_parse_i32_or(toks[i + 1]@, 100),
                            ..st.cur
                        },
                        ..st
                    };
                    lemma_cascade_jobs_frozen(toks, consumed, i + 2, st2);
                } else {
                    lemma_cascade_jobs_frozen(toks, consumed, i + 1, st);
                }
            } else if t == "-exact"@ {
                let st2 = CascadeView { cur: FrameConfig { exact: true, ..st.cur }, ..st };
                lemma_cascade_jobs_frozen(toks, consumed, i + 1, st2);
            } else if t == "-noexact"@ {
                let st2 = CascadeView { cur: FrameConfig { exact: false, ..st.cur }, ..st };
                lemma_cascade_jobs_frozen(toks, consumed, i + 1, st2);
            } else {
                let st2 = CascadeView { unknown: st.unknown.push(t), ..st };
                lemma_cascade_jobs_frozen(toks, consumed, i + 1, st2);
            }
        } else {
            let st2 = CascadeView {
                jobs: st.jobs.push(JobView { path: t, config: st.cur }),
                ..st
            };
            lemma_cascade_jobs_frozen(toks, consumed, i + 1, st2);
            assert(res == pass2_from(toks, consumed, i + 1, st2));
            assert(res.jobs.subrange(0, st.jobs.len() as int) =~= st.jobs);
        }
    }
}

/// Runs the second pass: emits the ordered job list and the
/// unrecognized option tokens, in encounter order.
#[verifier::loop_isolation(false)]
#[verifier::rlimit(100)]
#[verifier::spinoff_prover]
pub fn collect_jobs(tokens: &Vec<String>, consumed: &Vec<bool>, base: FrameConfig) -> (out: (
    Vec<FrameJob>,
    Vec<String>,
))
    requires
        consumed@.len() == tokens@.len(),
    ensures
        ({
            let fin = pass2_from(tokens@, consumed@, 0, init_cascade(base));
            &&& jobs_view(out.0@) == fin.jobs
            &&& strs_view(out.1@) == fin.unknown
        }),
{
    let n: usize = tokens.len();
    let mut cur: FrameConfig = base;
    let mut jobs: Vec<FrameJob> = Vec::new();
    let mut unknown: Vec<String> = Vec::new();
    let ghost st0 = init_cascade(base);
    proof {
        assert(jobs_view(jobs@) =~= st0.jobs);
        assert(strs_view(unknown@) =~= st0.unknown);
        assert(CascadeView { cur: cur, jobs: jobs_view(jobs@), unknown: strs_view(unknown@) }
            =~= st0);
    }
    let mut i: usize = 0;
    while i < n
        invariant
            0 <= i <= n,
            pass2_from(tokens@, consumed@, 0, st0) == pass2_from(
                tokens@,
                consumed@,
                i as int,
                CascadeView { cur: cur, jobs: jobs_view(jobs@), unknown: strs_view(unknown@) },
            ),
        decreases n - i,
    {
        let ghost pre = CascadeView {
            cur: cur,
            jobs: jobs_view(jobs@),
            unknown: strs_view(unknown@),
        };
        if consumed[i] {
            i = i + 1;
        } else {
            let is_opt: bool = tokens[i].unicode_len() > 0 && tokens[i].get_char(0) == '-';
            if is_opt {
                if tok_is(&tokens[i], "-lossy") {
                    cur.lossy = true;
                    i = i + 1;
                } else if tok_is(&tokens[i], "-lossless") {
                    cur.lossy = false;
                    i = i + 1;
                } else if tok_is(&tokens[i], "-q") {
                    if i + 1 < n {
                        cur.quality_centi = parse_centi_or(tokens[i + 1].as_str(), 7500);
                        i = i + 2;
                    } else {
                        i = i + 1;
                    }
                } else if tok_is(&tokens[i], "-m") {
                    if i + 1 < n {
                        cur.method = parse_i32_or(tokens[i + 1].as_str(), 4);
                        i = i + 2;
                    } else {
                        i = i + 1;
                    }
                } else if tok_is(&tokens[i], "-d") {
                    if i + 1 < n {
                        cur.duration = parse_i32_or(tokens[i + 1].as_str(), 100);
                        i = i + 2;
                    } else {
                        i = i + 1;
                    }
                } else if tok_is(&tokens[i], "-exact") {
                    cur.exact = true;
                    i = i + 1;
                } else if tok_is(&tokens[i], "-noexact") {
                    cur.exact = false;
                    i = i + 1;
                } else {
                    unknown.push(tokens[i].clone());
                    proof {
                        assert(strs_view(unknown@) =~= pre.unknown.push(tokens@[i as int]@));
                    }
                    i = i + 1;
                }
            } else {
                jobs.push(FrameJob { path: tokens[i].clone(), config: cur });
                proof {
                    assert(jobs_view(jobs@) =~= pre.jobs.push(
                        JobView { path: tokens@[i as int]@, config: pre.cur },
                    ));
                }
                i = i + 1;
            }
        }
    }
    (jobs, unknown)
}

/// What the whole run does with a token list, before any image is
/// decoded.
pub enum Plan {
    /// Print the usage text and exit cleanly.
    ShowHelp,
    /// Print the version string and exit cleanly.
    ShowVersion,
    /// No path tokens were supplied: report it, print the usage text,
    /// and exit cleanly, producing no output file. Carries the
    /// unrecognized option tokens to report.
    NoInputFrames(Vec<String>),
    /// Encode the jobs in order.
    Encode(EncodePlan),
}

/// Everything the encode loop needs.
pub struct EncodePlan {
    pub options: EncoderOptions,
    pub jobs: Vec<FrameJob>,
    pub output_path: String,
    pub loop_count: i32,
    pub unknown: Vec<String>,
}

/// The first token that requests the usage text or the version string,
/// if any.
pub open spec fn first_meta(toks: Seq<String>, i: int) -> Option<Seq<char>>
    decreases toks.len() - i when 0 <= i
{
    if i >= toks.len() {
        None
    } else if toks[i]@ == "-h"@ || toks[i]@ == "-help"@ || toks[i]@ == "-version"@ {
        Some(toks[i]@)
    } else {
        first_meta(toks, i + 1)
    }
}

/// Decides the whole run from the token list (the program name already
/// stripped): help on an empty list or a help token, the version on a
/// version token, otherwise both passes, the no-input check, and the
/// sequence transformation.
#[verifier::loop_isolation(false)]
#[verifier::rlimit(100)]
#[verifier::spinoff_prover]
pub fn plan(tokens: &Vec<String>) -> (p: Plan)
    ensures
        ({
            let toks = tokens@;
            let g = pass1_from(toks, 0, init_globals(toks.len() as nat));
            let c = pass2_from(toks, g.consumed, 0, init_cascade(g.base_config));
            &&& (toks.len() == 0 ==> p is ShowHelp)
            &&& (toks.len() > 0 && first_meta(toks, 0) == Some("-version"@) ==> p is ShowVersion)
            &&& (toks.len() > 0 && first_meta(toks, 0) is Some && first_meta(toks, 0)
                != Some("-version"@) ==> p is ShowHelp)
            &&& (toks.len() > 0 && first_meta(toks, 0) is None && c.jobs.len() == 0 ==> {
                &&& p is NoInputFrames
                &&& p matches Plan::NoInputFrames(u) ==> strs_view(u@) == c.unknown
            })
            &&& (toks.len() > 0 && first_meta(toks, 0) is None && c.jobs.len() > 0 ==> {
                &&& p is Encode
                &&& p matches Plan::Encode(e) ==> {
                    &&& e.options == g.options
                    &&& e.output_path@ == g.output_path
                    &&& e.loop_count == g.loop_count
                    &&& jobs_view(e.jobs@) == transform_spec(c.jobs, g.reverse, g.ping_pong)
                    &&& strs_view(e.unknown@) == c.unknown
                }
            })
        }),
{
    let n: usize = tokens.len();
    if n == 0 {
        return Plan::ShowHelp;
    }
    let mut i: usize = 0;
    while i < n
        invariant
            0 <= i <= n,
            first_meta(tokens@, 0) == first_meta(tokens@, i as int),
        decreases n - i,
    {
        if tok_is(&tokens[i], "-h") || tok_is(&tokens[i], "-help") {
            proof {
                reveal_strlit("-h");
                reveal_strlit("-help");
                reveal_strlit("-version");
                assert(first_meta(tokens@, i as int) == Some(tokens@[i as int]@));
                assert(("-h")@.len() == 2);
                assert(("-help")@.len() == 5);
                assert(("-version")@.len() == 8);
                assert(tokens@[i as int]@ != "-version"@);
                assert(first_meta(tokens@, 0) != Some("-version"@));
            }
            return Plan::ShowHelp;
        }
        if tok_is(&tokens[i], "-version") {
            return Plan::ShowVersion;
        }
        i = i + 1;
    }
    let g: Globals = parse_globals(tokens);
    let out: (Vec<FrameJob>, Vec<String>) = collect_jobs(tokens, &g.consumed, g.base_config);
    let jobs: Vec<FrameJob> = out.0;
    let unknown: Vec<String> = out.1;
    if jobs.len() == 0 {
        return Plan::NoInputFrames(unknown);
    }
    let jobs2: Vec<FrameJob> = apply_transform(jobs, g.reverse, g.ping_pong);
    Plan::Encode(
        EncodePlan {
            options: g.options,
            jobs: jobs2,
            output_path: g.output_path,
            loop_count: g.loop_count,
            unknown,
        },
    )
}

} // verus!
