use vstd::prelude::*;
use crate::arg_matcher::ArgMatcher;
use crate::arg_matcher::ArgMatcherView;
use crate::arg_matcher::ArgType;
use crate::arg_matcher::ArgTypeView;
use crate::arg_matcher::matchers_view;
use crate::error::Error;
use crate::error::ErrorView;
use crate::exec_call::ExecCall;
use crate::exec_call::ExecCallView;
use crate::exec_call::strings_view;
use crate::valid_exec::MatchedArg;
use crate::valid_exec::MatchedArgView;
use crate::valid_exec::MatchedExec;
use crate::valid_exec::MatchedExecView;
use crate::valid_exec::MatchedFlag;
use crate::valid_exec::MatchedFlagView;
use crate::valid_exec::PositionalArg;
use crate::valid_exec::PositionalArgView;
use crate::valid_exec::ValidExec;
use crate::valid_exec::ValidExecView;
use crate::valid_exec::matched_args_view;
use crate::valid_exec::matched_flags_seq_view;
use crate::valid_exec::positional_seq_view;

verus! {

/// The declared shape of one program's acceptable invocations: the ordered
/// positional pattern, the set of recognized flag literals, and the absolute
/// paths that are acceptable resolutions of the program name on the host.
#[derive(Debug, PartialEq, Eq)]
pub struct ProgramPolicy {
    pub program: String,
    pub arg_patterns: Vec<ArgMatcher>,
    pub flags: Vec<String>,
    pub system_path: Vec<String>,
}

/// Mathematical value of a `ProgramPolicy`.
pub struct ProgramPolicyView {
    pub program: Seq<char>,
    pub arg_patterns: Seq<ArgMatcherView>,
    pub flags: Seq<Seq<char>>,
    pub system_path: Seq<Seq<char>>,
}

impl View for ProgramPolicy {
    type V = ProgramPolicyView;

    open spec fn view(&self) -> ProgramPolicyView {
        ProgramPolicyView {
            program: self.program@,
            arg_patterns: matchers_view(self.arg_patterns@),
            flags: strings_view(self.flags@),
            system_path: strings_view(self.system_path@),
        }
    }
}

/// Viewing a sequence of program policies elementwise.
pub open spec fn program_policies_view(s: Seq<ProgramPolicy>) -> Seq<ProgramPolicyView> {
    Seq::new(s.len(), |i: int| s[i]@)
}

/// A loaded policy: one entry per program, looked up by exact, case-sensitive
/// name.  Built once by the parser and read-only thereafter.
#[derive(Debug, PartialEq, Eq)]
pub struct Policy {
    pub(crate) programs: Vec<ProgramPolicy>,
}

/// Mathematical value of a `Policy`.
pub struct PolicyView {
    pub programs: Seq<ProgramPolicyView>,
}

impl View for Policy {
    type V = PolicyView;

    closed spec fn view(&self) -> PolicyView {
        PolicyView { programs: program_policies_view(self.programs@) }
    }
}

impl PolicyView {
    /// Program names are unique, so lookup is unambiguous.  The parser
    /// establishes this for every policy it produces.
    pub open spec fn wf(self) -> bool {
        forall|i: int, j: int|
            0 <= i < j < self.programs.len() ==> self.programs[i].program
                != self.programs[j].program
    }
}

/// First entry whose program name equals `name`, if any.
pub open spec fn lookup_program(programs: Seq<ProgramPolicyView>, name: Seq<char>) -> Option<
    ProgramPolicyView,
>
    decreases programs.len(),
{
    if programs.len() == 0 {
        Option::None
    } else if programs[0].program == name {
        Option::Some(programs[0])
    } else {
        lookup_program(programs.skip(1), name)
    }
}

/// The flags recognized by `flag_set` among the first `n` arguments, in
/// order of appearance.
pub open spec fn matched_flags_upto(
    flag_set: Seq<Seq<char>>,
    args: Seq<Seq<char>>,
    n: int,
) -> Seq<MatchedFlagView>
    decreases n,
{
    if n <= 0 {
        Seq::empty()
    } else {
        let rest = matched_flags_upto(flag_set, args, n - 1);
        if flag_set.contains(args[n - 1]) {
            rest.push(MatchedFlagView { flag: args[n - 1] })
        } else {
            rest
        }
    }
}

/// All flags recognized in the argument list, in order of appearance.
pub open spec fn matched_flags(flag_set: Seq<Seq<char>>, args: Seq<Seq<char>>) -> Seq<
    MatchedFlagView,
> {
    matched_flags_upto(flag_set, args, args.len() as int)
}

/// The first `n` arguments that are not recognized flags, each keeping its
/// original zero-based index.  Flags are extracted before positional
/// matching begins, so this is exactly what the pattern walk sees.
pub open spec fn positional_upto(
    flag_set: Seq<Seq<char>>,
    args: Seq<Seq<char>>,
    n: int,
) -> Seq<PositionalArgView>
    decreases n,
{
    if n <= 0 {
        Seq::empty()
    } else {
        let rest = positional_upto(flag_set, args, n - 1);
        if flag_set.contains(args[n - 1]) {
            rest
        } else {
            rest.push(PositionalArgView { index: n - 1, value: args[n - 1] })
        }
    }
}

/// All non-flag arguments with their original indices.
pub open spec fn positional_args(flag_set: Seq<Seq<char>>, args: Seq<Seq<char>>) -> Seq<
    PositionalArgView,
> {
    positional_upto(flag_set, args, args.len() as int)
}

/// The run of `take` consecutive positional arguments starting at `cursor`,
/// each resolved as a readable file by a vararg matcher.
pub open spec fn consumed_run(pos: Seq<PositionalArgView>, cursor: int, take: int) -> Seq<
    MatchedArgView,
> {
    Seq::new(
        take as nat,
        |j: int|
            MatchedArgView {
                index: pos[cursor + j].index,
                arg_type: ArgTypeView::ReadableFile,
                value: pos[cursor + j].value,
            },
    )
}

/// The deterministic, non-backtracking left-to-right walk of the pattern
/// list over the positional arguments.  `p` is the cursor into `pats`,
/// `cursor` the cursor into `pos`, and `acc` the arguments attributed so
/// far; the first error encountered is the result.  `call_args` is the full
/// original argument list, carried only for error reporting.
pub open spec fn walk_patterns(
    program: Seq<char>,
    call_args: Seq<Seq<char>>,
    pats: Seq<ArgMatcherView>,
    pos: Seq<PositionalArgView>,
    p: int,
    cursor: int,
    acc: Seq<MatchedArgView>,
) -> Result<Seq<MatchedArgView>, ErrorView>
    decreases pats.len() - p,
{
    if !(0 <= p < pats.len()) {
        if cursor < pos.len() {
            Result::Err(ErrorView::UnexpectedArguments { program, args: pos.skip(cursor) })
        } else {
            Result::Ok(acc)
        }
    } else {
        match pats[p] {
            ArgMatcherView::Literal(expected) => {
                if !(cursor < pos.len()) {
                    Result::Err(
                        ErrorView::NotEnoughArgs { program, args: call_args, arg_patterns: pats.skip(p) },
                    )
                } else if pos[cursor].value != expected {
                    Result::Err(
                        ErrorView::LiteralValueDidNotMatch { expected, actual: pos[cursor].value },
                    )
                } else {
                    walk_patterns(
                        program,
                        call_args,
                        pats,
                        pos,
                        p + 1,
                        cursor + 1,
                        acc.push(
                            MatchedArgView {
                                index: pos[cursor].index,
                                arg_type: ArgTypeView::Literal(expected),
                                value: pos[cursor].value,
                            },
                        ),
                    )
                }
            },
            ArgMatcherView::Flag(expected) => {
                if !(cursor < pos.len()) {
                    Result::Err(
                        ErrorView::NotEnoughArgs { program, args: call_args, arg_patterns: pats.skip(p) },
                    )
                } else if pos[cursor].value != expected {
                    Result::Err(
                        ErrorView::LiteralValueDidNotMatch { expected, actual: pos[cursor].value },
                    )
                } else {
                    walk_patterns(
                        program,
                        call_args,
                        pats,
                        pos,
                        p + 1,
                        cursor + 1,
                        acc.push(
                            MatchedArgView {
                                index: pos[cursor].index,
                                arg_type: ArgTypeView::Literal(expected),
                                value: pos[cursor].value,
                            },
                        ),
                    )
                }
            },
            ArgMatcherView::ReadableFile => {
                if !(cursor < pos.len()) {
                    Result::Err(
                        ErrorView::NotEnoughArgs { program, args: call_args, arg_patterns: pats.skip(p) },
                    )
                } else {
                    walk_patterns(
                        program,
                        call_args,
                        pats,
                        pos,
                        p + 1,
                        cursor + 1,
                        acc.push(
                            MatchedArgView {
                                index: pos[cursor].index,
                                arg_type: ArgTypeView::ReadableFile,
                                value: pos[cursor].value,
                            },
                        ),
                    )
                }
            },
            ArgMatcherView::WriteableFile => {
                if !(cursor < pos.len()) {
                    Result::Err(
                        ErrorView::NotEnoughArgs { program, args: call_args, arg_patterns: pats.skip(p) },
                    )
                } else {
                    walk_patterns(
                        program,
                        call_args,
                        pats,
                        pos,
                        p + 1,
                        cursor + 1,
                        acc.push(
                            MatchedArgView {
                                index: pos[cursor].index,
                                arg_type: ArgTypeView::WriteableFile,
                                value: pos[cursor].value,
                            },
                        ),
                    )
                }
            },
            ArgMatcherView::ReadableFiles => {
                let reserved = pats.len() - p - 1;
                let avail = pos.len() - cursor;
                if avail > reserved {
                    walk_patterns(
                        program,
                        call_args,
                        pats,
                        pos,
                        p + 1,
                        cursor + (avail - reserved),
                        acc + consumed_run(pos, cursor, avail - reserved),
                    )
                } else if avail <= 0 && reserved > 0 {
                    Result::Err(
                        ErrorView::NotEnoughArgs { program, args: call_args, arg_patterns: pats.skip(p) },
                    )
                } else {
                    Result::Err(
                        ErrorView::VarargMatcherDidNotMatchAnything {
                            program,
                            matcher: ArgMatcherView::ReadableFiles,
                        },
                    )
                }
            },
        }
    }
}

/// The decision procedure, as a pure mathematical function of the policy and
/// the call.  `Policy::check` returns exactly this value, which is what
/// makes checking deterministic: identical policy and call values always
/// yield the identical result.
pub open spec fn spec_check(policy: PolicyView, call: ExecCallView) -> Result<
    MatchedExecView,
    ErrorView,
> {
    match lookup_program(policy.programs, call.program) {
        Option::None => Result::Err(ErrorView::NoPolicyForProgram { program: call.program }),
        Option::Some(pp) => {
            let pos = positional_args(pp.flags, call.args);
            match walk_patterns(
                pp.program,
                call.args,
                pp.arg_patterns,
                pos,
                0,
                0,
                Seq::empty(),
            ) {
                Result::Ok(margs) => Result::Ok(
                    MatchedExecView::Match(
                        ValidExecView {
                            program: pp.program,
                            args: margs,
                            flags: matched_flags(pp.flags, call.args),
                            system_path: pp.system_path,
                        },
                    ),
                ),
                Result::Err(e) => Result::Err(e),
            }
        },
    }
}

/// The view of a check outcome, taken on whichever side it is.
pub open spec fn check_result_view(r: Result<MatchedExec, Error>) -> Result<
    MatchedExecView,
    ErrorView,
> {
    match r {
        Result::Ok(m) => Result::Ok(m@),
        Result::Err(e) => Result::Err(e@),
    }
}

/// Membership of a string in a vector of strings, by character sequence.
fn contains_string(set: &Vec<String>, x: &String) -> (b: bool)
    ensures
        b == strings_view(set@).contains(x@),
{
    let mut i: usize = 0;
    while i < set.len()
        invariant
            i <= set@.len(),
            forall|j: int| 0 <= j < i ==> strings_view(set@)[j] != x@,
        decreases set@.len() - i,
    {
        if set[i] == *x {
            assert(strings_view(set@)[i as int] == x@);
            return true;
        }
        i = i + 1;
    }
    assert(!strings_view(set@).contains(x@));
    false
}

/// Copy of a string vector with the same character sequences.
fn clone_strings(v: &Vec<String>) -> (r: Vec<String>)
    ensures
        r@ == v@,
{
    let mut r: Vec<String> = Vec::new();
    let mut i: usize = 0;
    while i < v.len()
        invariant
            i <= v@.len(),
            r@ == v@.take(i as int),
        decreases v@.len() - i,
    {
        r.push(v[i].clone());
        proof {
            assert(r@ =~= v@.take(i + 1));
        }
        i = i + 1;
    }
    proof {
        assert(v@.take(v@.len() as int) =~= v@);
    }
    r
}

/// Copy of the pattern suffix starting at `from`, by view.
fn clone_matchers_from(v: &Vec<ArgMatcher>, from: usize) -> (r: Vec<ArgMatcher>)
    requires
        from <= v@.len(),
    ensures
        matchers_view(r@) == matchers_view(v@).skip(from as int),
{
    let mut r: Vec<ArgMatcher> = Vec::new();
    let mut i: usize = from;
    while i < v.len()
        invariant
            from <= i <= v@.len(),
            r@.len() == i - from,
            forall|j: int| 0 <= j < r@.len() ==> r@[j]@ == v@[from + j]@,
        decreases v@.len() - i,
    {
        r.push(v[i].duplicate());
        i = i + 1;
    }
    proof {
        assert(matchers_view(r@) =~= matchers_view(v@).skip(from as int));
    }
    r
}

/// Copy of the positional-argument suffix starting at `from`, by view.
fn clone_positional_from(v: &Vec<PositionalArg>, from: usize) -> (r: Vec<PositionalArg>)
    requires
        from <= v@.len(),
    ensures
        positional_seq_view(r@) == positional_seq_view(v@).skip(from as int),
{
    let mut r: Vec<PositionalArg> = Vec::new();
    let mut i: usize = from;
    while i < v.len()
        invariant
            from <= i <= v@.len(),
            r@.len() == i - from,
            forall|j: int| 0 <= j < r@.len() ==> r@[j]@ == v@[from + j]@,
        decreases v@.len() - i,
    {
        let pa = &v[i];
        r.push(PositionalArg { index: pa.index, value: pa.value.clone() });
        i = i + 1;
    }
    proof {
        assert(positional_seq_view(r@) =~= positional_seq_view(v@).skip(from as int));
    }
    r
}

impl Policy {
    /// Packs parsed program entries into a policy.
    pub(crate) fn from_programs(programs: Vec<ProgramPolicy>) -> (p: Policy)
        ensures
            p@.programs == program_policies_view(programs@),
    {
        Policy { programs }
    }

    /// First policy entry for `name`, by linear scan.
    fn find_program<'a>(&'a self, name: &String) -> (r: Option<&'a ProgramPolicy>)
        ensures
            match r {
                Option::Some(pp) => lookup_program(self@.programs, name@) == Option::Some(pp@),
                Option::None => lookup_program(self@.programs, name@) == Option::<
                    ProgramPolicyView,
                >::None,
            },
    {
        let ghost all = self@.programs;
        proof {
            assert(all.skip(0) =~= all);
        }
        let mut i: usize = 0;
        while i < self.programs.len()
            invariant
                i <= self.programs@.len(),
                all == self@.programs,
                all.len() == self.programs@.len(),
                lookup_program(all, name@) == lookup_program(all.skip(i as int), name@),
            decreases self.programs@.len() - i,
        {
            let entry = &self.programs[i];
            proof {
                assert(all.skip(i as int)[0] == all[i as int]);
            }
            if entry.program == *name {
                return Option::Some(entry);
            }
            proof {
                assert(all.skip(i as int).skip(1) =~= all.skip(i as int + 1));
            }
            i = i + 1;
        }
        proof {
            assert(all.skip(i as int) =~= Seq::<ProgramPolicyView>::empty());
        }
        Option::None
    }

    /// Decides the call.  The result is exactly `spec_check` of the policy's
    /// and the call's mathematical values — a pure function, so checking the
    /// same policy against the same call always yields the same outcome, and
    /// a call is accepted only when every argument is attributed to a
    /// pattern position or a recognized flag.
    #[verifier::loop_isolation(false)]
    pub fn check(&self, call: &ExecCall) -> (r: Result<MatchedExec, Error>)
        ensures
            check_result_view(r) == spec_check(self@, call@),
    {
        let pp = match self.find_program(&call.program) {
            Option::None => {
                return Result::Err(Error::NoPolicyForProgram { program: call.program.clone() });
            },
            Option::Some(pp) => pp,
        };
        let ghost fset = pp@.flags;
        let ghost cargs = call@.args;

        // Extract recognized flags; everything else is positional and keeps
        // its original index.
        let mut flags: Vec<MatchedFlag> = Vec::new();
        let mut pos: Vec<PositionalArg> = Vec::new();
        proof {
            assert(matched_flags_seq_view(flags@) =~= Seq::<MatchedFlagView>::empty());
            assert(positional_seq_view(pos@) =~= Seq::<PositionalArgView>::empty());
        }
        let mut i: usize = 0;
        while i < call.args.len()
            invariant
                i <= call.args@.len(),
                cargs == call@.args,
                fset == pp@.flags,
                cargs.len() == call.args@.len(),
                matched_flags_seq_view(flags@) == matched_flags_upto(fset, cargs, i as int),
                positional_seq_view(pos@) == positional_upto(fset, cargs, i as int),
            decreases call.args@.len() - i,
        {
            let a = &call.args[i];
            proof {
                assert(cargs[i as int] == a@);
            }
            if contains_string(&pp.flags, a) {
                let nf = MatchedFlag::new(a.as_str());
                flags.push(nf);
                proof {
                    assert(matched_flags_seq_view(flags@) =~= matched_flags_upto(
                        fset,
                        cargs,
                        i as int,
                    ).push(MatchedFlagView { flag: cargs[i as int] }));
                }
            } else {
                pos.push(PositionalArg { index: i, value: a.clone() });
                proof {
                    assert(positional_seq_view(pos@) =~= positional_upto(
                        fset,
                        cargs,
                        i as int,
                    ).push(PositionalArgView { index: i as int, value: cargs[i as int] }));
                }
            }
            i = i + 1;
        }
        let ghost posv = positional_args(fset, cargs);
        proof {
            assert(positional_seq_view(pos@) == posv);
            assert(matched_flags_seq_view(flags@) == matched_flags(fset, cargs));
        }

        // Walk the pattern list over the positional arguments.
        let ghost prog = pp@.program;
        let ghost patsv = pp@.arg_patterns;
        let mut matched: Vec<MatchedArg> = Vec::new();
        let pos_len = pos.len();
        proof {
            assert(pos@.len() == pos_len);
            assert(matched_args_view(matched@) =~= Seq::<MatchedArgView>::empty());
        }
        let mut cursor: usize = 0;
        let mut p: usize = 0;
        while p < pp.arg_patterns.len()
            invariant
                p <= pp.arg_patterns@.len(),
                cursor <= pos@.len(),
                prog == pp@.program,
                patsv == pp@.arg_patterns,
                posv == positional_seq_view(pos@),
                patsv.len() == pp.arg_patterns@.len(),
                posv.len() == pos@.len(),
                pos@.len() <= usize::MAX,
                walk_patterns(
                    prog,
                    cargs,
                    patsv,
                    posv,
                    p as int,
                    cursor as int,
                    matched_args_view(matched@),
                ) == walk_patterns(prog, cargs, patsv, posv, 0, 0, Seq::empty()),
            decreases pp.arg_patterns@.len() - p,
        {
            let ghost accv = matched_args_view(matched@);
            let ghost c0 = cursor as int;
            proof {
                assert(patsv[p as int] == pp.arg_patterns@[p as int]@);
            }
            match &pp.arg_patterns[p] {
                ArgMatcher::Literal(expected) => {
                    if cursor >= pos.len() {
                        proof {
                            assert(walk_patterns(prog, cargs, patsv, posv, p as int, c0, accv)
                                == Result::<Seq<MatchedArgView>, ErrorView>::Err(
                                ErrorView::NotEnoughArgs {
                                    program: prog,
                                    args: cargs,
                                    arg_patterns: patsv.skip(p as int),
                                },
                            ));
                        }
                        return Result::Err(
                            Error::NotEnoughArgs {
                                program: pp.program.clone(),
                                args: clone_strings(&call.args),
                                arg_patterns: clone_matchers_from(&pp.arg_patterns, p),
                            },
                        );
                    }
                    let pa = &pos[cursor];
                    proof {
                        assert(posv[c0] == pa@);
                    }
                    if pa.value == *expected {
                        matched.push(
                            MatchedArg {
                                index: pa.index,
                                arg_type: ArgType::Literal(expected.clone()),
                                value: pa.value.clone(),
                            },
                        );
                        cursor = cursor + 1;
                        proof {
                            let elem = MatchedArgView {
                                index: posv[c0].index,
                                arg_type: ArgTypeView::Literal(expected@),
                                value: posv[c0].value,
                            };
                            assert(matched_args_view(matched@) =~= accv.push(elem));
                            assert(walk_patterns(prog, cargs, patsv, posv, p as int, c0, accv)
                                == walk_patterns(
                                prog,
                                cargs,
                                patsv,
                                posv,
                                p as int + 1,
                                c0 + 1,
                                accv.push(elem),
                            ));
                        }
                    } else {
                        proof {
                            assert(walk_patterns(prog, cargs, patsv, posv, p as int, c0, accv)
                                == Result::<Seq<MatchedArgView>, ErrorView>::Err(
                                ErrorView::LiteralValueDidNotMatch {
                                    expected: expected@,
                                    actual: posv[c0].value,
                                },
                            ));
                        }
                        return Result::Err(
                            Error::LiteralValueDidNotMatch {
                                expected: expected.clone(),
                                actual: pa.value.clone(),
                            },
                        );
                    }
                },
                ArgMatcher::Flag(expected) => {
                    if cursor >= pos.len() {
                        proof {
                            assert(walk_patterns(prog, cargs, patsv, posv, p as int, c0, accv)
                                == Result::<Seq<MatchedArgView>, ErrorView>::Err(
                                ErrorView::NotEnoughArgs {
                                    program: prog,
                                    args: cargs,
                                    arg_patterns: patsv.skip(p as int),
                                },
                            ));
                        }
                        return Result::Err(
                            Error::NotEnoughArgs {
                                program: pp.program.clone(),
                                args: clone_strings(&call.args),
                                arg_patterns: clone_matchers_from(&pp.arg_patterns, p),
                            },
                        );
                    }
                    let pa = &pos[cursor];
                    proof {
                        assert(posv[c0] == pa@);
                    }
                    if pa.value == *expected {
                        matched.push(
                            MatchedArg {
                                index: pa.index,
                                arg_type: ArgType::Literal(expected.clone()),
                                value: pa.value.clone(),
                            },
                        );
                        cursor = cursor + 1;
                        proof {
                            let elem = MatchedArgView {
                                index: posv[c0].index,
                                arg_type: ArgTypeView::Literal(expected@),
                                value: posv[c0].value,
                            };
                            assert(matched_args_view(matched@) =~= accv.push(elem));
                            assert(walk_patterns(prog, cargs, patsv, posv, p as int, c0, accv)
                                == walk_patterns(
                                prog,
                                cargs,
                                patsv,
                                posv,
                                p as int + 1,
                                c0 + 1,
                                accv.push(elem),
                            ));
                        }
                    } else {
                        proof {
                            assert(walk_patterns(prog, cargs, patsv, posv, p as int, c0, accv)
                                == Result::<Seq<MatchedArgView>, ErrorView>::Err(
                                ErrorView::LiteralValueDidNotMatch {
                                    expected: expected@,
                                    actual: posv[c0].value,
                                },
                            ));
                        }
                        return Result::Err(
                            Error::LiteralValueDidNotMatch {
                                expected: expected.clone(),
                                actual: pa.value.clone(),
                            },
                        );
                    }
                },
                ArgMatcher::ReadableFile => {
                    if cursor >= pos.len() {
                        proof {
                            assert(walk_patterns(prog, cargs, patsv, posv, p as int, c0, accv)
                                == Result::<Seq<MatchedArgView>, ErrorView>::Err(
                                ErrorView::NotEnoughArgs {
                                    program: prog,
                                    args: cargs,
                                    arg_patterns: patsv.skip(p as int),
                                },
                            ));
                        }
                        return Result::Err(
                            Error::NotEnoughArgs {
                                program: pp.program.clone(),
                                args: clone_strings(&call.args),
                                arg_patterns: clone_matchers_from(&pp.arg_patterns, p),
                            },
                        );
                    }
                    let pa = &pos[cursor];
                    proof {
                        assert(posv[c0] == pa@);
                    }
                    matched.push(
                        MatchedArg {
                            index: pa.index,
                            arg_type: ArgType::ReadableFile,
                            value: pa.value.clone(),
                        },
                    );
                    cursor = cursor + 1;
                    proof {
                        let elem = MatchedArgView {
                            index: posv[c0].index,
                            arg_type: ArgTypeView::ReadableFile,
                            value: posv[c0].value,
                        };
                        assert(matched_args_view(matched@) =~= accv.push(elem));
                        assert(walk_patterns(prog, cargs, patsv, posv, p as int, c0, accv)
                            == walk_patterns(
                            prog,
                            cargs,
                            patsv,
                            posv,
                            p as int + 1,
                            c0 + 1,
                            accv.push(elem),
                        ));
                    }
                },
                ArgMatcher::WriteableFile => {
                    if cursor >= pos.len() {
                        proof {
                            assert(walk_patterns(prog, cargs, patsv, posv, p as int, c0, accv)
                                == Result::<Seq<MatchedArgView>, ErrorView>::Err(
                                ErrorView::NotEnoughArgs {
                                    program: prog,
                                    args: cargs,
                                    arg_patterns: patsv.skip(p as int),
                                },
                            ));
                        }
                        return Result::Err(
                            Error::NotEnoughArgs {
                                program: pp.program.clone(),
                                args: clone_strings(&call.args),
                                arg_patterns: clone_matchers_from(&pp.arg_patterns, p),
                            },
                        );
                    }
                    let pa = &pos[cursor];
                    proof {
                        assert(posv[c0] == pa@);
                    }
                    matched.push(
                        MatchedArg {
                            index: pa.index,
                            arg_type: ArgType::WriteableFile,
                            value: pa.value.clone(),
                        },
                    );
                    cursor = cursor + 1;
                    proof {
                        let elem = MatchedArgView {
                            index: posv[c0].index,
                            arg_type: ArgTypeView::WriteableFile,
                            value: posv[c0].value,
                        };
                        assert(matched_args_view(matched@) =~= accv.push(elem));
                        assert(walk_patterns(prog, cargs, patsv, posv, p as int, c0, accv)
                            == walk_patterns(
                            prog,
                            cargs,
                            patsv,
                            posv,
                            p as int + 1,
                            c0 + 1,
                            accv.push(elem),
                        ));
                    }
                },
                ArgMatcher::ReadableFiles => {
                    let reserved = pp.arg_patterns.len() - p - 1;
                    let avail = pos.len() - cursor;
                    if avail > reserved {
                        let take = avail - reserved;
                        let ghost cursor0 = cursor as int;
                        let mut j: usize = 0;
                        while j < take
                            invariant
                                j <= take,
                                cursor0 == cursor as int,
                                cursor + take <= pos@.len(),
                                pos@.len() <= usize::MAX,
                                posv == positional_seq_view(pos@),
                                posv.len() == pos@.len(),
                                matched_args_view(matched@) == accv + consumed_run(
                                    posv,
                                    cursor0,
                                    j as int,
                                ),
                            decreases take - j,
                        {
                            let pa = &pos[cursor + j];
                            proof {
                                assert(posv[cursor0 + j] == pa@);
                            }
                            let ghost m0 = matched@;
                            matched.push(
                                MatchedArg {
                                    index: pa.index,
                                    arg_type: ArgType::ReadableFile,
                                    value: pa.value.clone(),
                                },
                            );
                            proof {
                                let elem = MatchedArgView {
                                    index: posv[cursor0 + j].index,
                                    arg_type: ArgTypeView::ReadableFile,
                                    value: posv[cursor0 + j].value,
                                };
                                assert(matched_args_view(matched@) =~= matched_args_view(
                                    m0,
                                ).push(elem));
                                assert(consumed_run(posv, cursor0, j + 1) =~= consumed_run(
                                    posv,
                                    cursor0,
                                    j as int,
                                ).push(elem));
                                assert(matched_args_view(matched@) =~= accv + consumed_run(
                                    posv,
                                    cursor0,
                                    j + 1,
                                ));
                            }
                            j = j + 1;
                        }
                        cursor = cursor + take;
                        proof {
                            assert(matched_args_view(matched@) == accv + consumed_run(
                                posv,
                                c0,
                                take as int,
                            ));
                            assert(walk_patterns(prog, cargs, patsv, posv, p as int, c0, accv)
                                == walk_patterns(
                                prog,
                                cargs,
                                patsv,
                                posv,
                                p as int + 1,
                                c0 + take,
                                accv + consumed_run(posv, c0, take as int),
                            ));
                        }
                    } else if avail == 0 && reserved > 0 {
                        proof {
                            assert(walk_patterns(prog, cargs, patsv, posv, p as int, c0, accv)
                                == Result::<Seq<MatchedArgView>, ErrorView>::Err(
                                ErrorView::NotEnoughArgs {
                                    program: prog,
                                    args: cargs,
                                    arg_patterns: patsv.skip(p as int),
                                },
                            ));
                        }
                        return Result::Err(
                            Error::NotEnoughArgs {
                                program: pp.program.clone(),
                                args: clone_strings(&call.args),
                                arg_patterns: clone_matchers_from(&pp.arg_patterns, p),
                            },
                        );
                    } else {
                        proof {
                            assert(walk_patterns(prog, cargs, patsv, posv, p as int, c0, accv)
                                == Result::<Seq<MatchedArgView>, ErrorView>::Err(
                                ErrorView::VarargMatcherDidNotMatchAnything {
                                    program: prog,
                                    matcher: ArgMatcherView::ReadableFiles,
                                },
                            ));
                        }
                        return Result::Err(
                            Error::VarargMatcherDidNotMatchAnything {
                                program: pp.program.clone(),
                                matcher: ArgMatcher::ReadableFiles,
                            },
                        );
                    }
                },
            }
            p = p + 1;
        }
        if cursor < pos.len() {
            let extra = clone_positional_from(&pos, cursor);
            return Result::Err(
                Error::UnexpectedArguments { program: pp.program.clone(), args: extra },
            );
        }
        let system_path = clone_strings(&pp.system_path);
        let valid = ValidExec { program: pp.program.clone(), args: matched, flags, system_path };
        proof {
            assert(strings_view(valid.system_path@) =~= pp@.system_path);
        }
        Result::Ok(MatchedExec::Match(valid))
    }
}

/// A program declared with no positional patterns and no flags accepts
/// exactly the zero-argument call, and the match it reports carries empty
/// argument and flag lists.
pub proof fn lemma_zero_pattern_zero_arg_match(policy: PolicyView, call: ExecCallView)
    requires
        lookup_program(policy.programs, call.program) matches Option::Some(pp) && pp.arg_patterns.len()
            == 0 && pp.flags.len() == 0,
        call.args.len() == 0,
    ensures
        spec_check(policy, call) matches Result::Ok(m) && m matches MatchedExecView::Match(v)
            && v.args.len() == 0 && v.flags.len() == 0,
{
    let pp = lookup_program(policy.programs, call.program)->Some_0;
    assert(positional_args(pp.flags, call.args).len() == 0);
    assert(matched_flags(pp.flags, call.args).len() == 0);
}

/// A literal pattern position that does not equal the supplied argument is
/// reported at once with the exact expected and actual values, whatever
/// stands after that position: two walks that agree on the argument at the
/// cursor report the identical error even if everything beyond it differs.
pub proof fn lemma_literal_mismatch_first_wins(
    program: Seq<char>,
    call_args1: Seq<Seq<char>>,
    call_args2: Seq<Seq<char>>,
    pats: Seq<ArgMatcherView>,
    pos1: Seq<PositionalArgView>,
    pos2: Seq<PositionalArgView>,
    p: int,
    cursor: int,
    acc1: Seq<MatchedArgView>,
    acc2: Seq<MatchedArgView>,
)
    requires
        0 <= p < pats.len(),
        pats[p] matches ArgMatcherView::Literal(expected),
        0 <= cursor < pos1.len(),
        cursor < pos2.len(),
        pos1[cursor].value == pos2[cursor].value,
        pos1[cursor].value != pats[p]->Literal_0,
    ensures
        walk_patterns(program, call_args1, pats, pos1, p, cursor, acc1) == Result::<
            Seq<MatchedArgView>,
            ErrorView,
        >::Err(
            ErrorView::LiteralValueDidNotMatch {
                expected: pats[p]->Literal_0,
                actual: pos1[cursor].value,
            },
        ),
        walk_patterns(program, call_args2, pats, pos2, p, cursor, acc2) == walk_patterns(
            program,
            call_args1,
            pats,
            pos1,
            p,
            cursor,
            acc1,
        ),
{
}

/// A vararg matcher with a reserved tail of length `k` needs at least `k + 1`
/// positional arguments from its cursor on: with exactly `k` available the
/// vararg is left nothing and the walk reports that it matched nothing, and
/// the walk succeeds only when strictly more than `k` are available.
pub proof fn lemma_vararg_reserved_tail(
    program: Seq<char>,
    call_args: Seq<Seq<char>>,
    pats: Seq<ArgMatcherView>,
    pos: Seq<PositionalArgView>,
    p: int,
    cursor: int,
    acc: Seq<MatchedArgView>,
)
    requires
        0 <= p < pats.len(),
        pats[p] is ReadableFiles,
        0 <= cursor <= pos.len(),
    ensures
        pos.len() - cursor == pats.len() - p - 1 ==> walk_patterns(
            program,
            call_args,
            pats,
            pos,
            p,
            cursor,
            acc,
        ) == Result::<Seq<MatchedArgView>, ErrorView>::Err(
            ErrorView::VarargMatcherDidNotMatchAnything {
                program,
                matcher: ArgMatcherView::ReadableFiles,
            },
        ),
        walk_patterns(program, call_args, pats, pos, p, cursor, acc) is Ok ==> pos.len() - cursor
            > pats.len() - p - 1,
{
}

/// Trailing positional arguments that remain after the whole pattern list is
/// consumed are always reported, each with its original index and value.
pub proof fn lemma_unexpected_trailing(
    program: Seq<char>,
    call_args: Seq<Seq<char>>,
    pats: Seq<ArgMatcherView>,
    pos: Seq<PositionalArgView>,
    cursor: int,
    acc: Seq<MatchedArgView>,
)
    requires
        0 <= cursor < pos.len(),
    ensures
        walk_patterns(program, call_args, pats, pos, pats.len() as int, cursor, acc) == Result::<
            Seq<MatchedArgView>,
            ErrorView,
        >::Err(ErrorView::UnexpectedArguments { program, args: pos.skip(cursor) }),
{
}

/// What it means for one walked positional argument to be faithful to the
/// original argument list: its index is in range (below `bound`), the list
/// holds exactly its value there, and that value is not a recognized flag.
pub open spec fn faithful_positional(
    flag_set: Seq<Seq<char>>,
    args: Seq<Seq<char>>,
    bound: int,
    pa: PositionalArgView,
) -> bool {
    &&& 0 <= pa.index < bound
    &&& args[pa.index] == pa.value
    &&& !flag_set.contains(pa.value)
}

/// Every positional argument the engine walks (and hence every argument an
/// `UnexpectedArguments` error lists) carries its correct zero-based index
/// into the original argument list, holds exactly the argument string found
/// there, and is not a recognized flag.
pub proof fn lemma_positional_args_faithful(flag_set: Seq<Seq<char>>, args: Seq<Seq<char>>)
    ensures
        forall|j: int|
            0 <= j < positional_args(flag_set, args).len() ==> faithful_positional(
                flag_set,
                args,
                args.len() as int,
                #[trigger] positional_args(flag_set, args)[j],
            ),
{
    lemma_positional_upto_faithful(flag_set, args, args.len() as int);
}

proof fn lemma_positional_upto_faithful(flag_set: Seq<Seq<char>>, args: Seq<Seq<char>>, n: int)
    requires
        n <= args.len(),
    ensures
        forall|j: int|
            0 <= j < positional_upto(flag_set, args, n).len() ==> faithful_positional(
                flag_set,
                args,
                n,
                #[trigger] positional_upto(flag_set, args, n)[j],
            ),
    decreases n,
{
    if n > 0 {
        lemma_positional_upto_faithful(flag_set, args, n - 1);
        let rest = positional_upto(flag_set, args, n - 1);
        let cur = positional_upto(flag_set, args, n);
        assert forall|j: int| 0 <= j < cur.len() implies faithful_positional(
            flag_set,
            args,
            n,
            cur[j],
        ) by {
            if flag_set.contains(args[n - 1]) {
                assert(cur == rest);
                assert(faithful_positional(flag_set, args, n - 1, rest[j]));
            } else {
                assert(cur == rest.push(PositionalArgView { index: n - 1, value: args[n - 1] }));
                if j < rest.len() {
                    assert(cur[j] == rest[j]);
                    assert(faithful_positional(flag_set, args, n - 1, rest[j]));
                } else {
                    assert(cur[j] == PositionalArgView { index: n - 1, value: args[n - 1] });
                }
            }
        }
    }
}

} // verus!

