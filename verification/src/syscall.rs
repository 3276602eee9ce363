//! The table of system calls: each call with the signatures that were found for
//! it in the kernel's sources.

use vstd::prelude::*;

verus! {

/// One system call of one ABI.
#[derive(Debug)]
pub struct SyscallInfo {
    pub id: u64,
    pub abi: String,
    pub name: String,
    pub impl_name: Option<String>,
    pub inner: SyscallInfoInner,
}

/// What was found for a system call: its signatures, or why none was looked for.
#[derive(Debug)]
pub enum SyscallInfoInner {
    Signatures(Vec<SyscallSignature>),
    Skipped(SkipReason),
}

/// Why no signature was looked for.
#[derive(Debug, Clone, Copy, PartialEq, Eq, Structural)]
pub enum SkipReason {
    Unimplemented,
    Deprecated,
    Parameterless,
}

/// One signature of a system call, with the places in the sources that match it.
#[derive(Debug)]
pub struct SyscallSignature {
    pub key: String,
    pub matches: Vec<SyscallSignatureMatch>,
}

/// One place in the sources that declares a system call.
#[derive(Debug)]
pub struct SyscallSignatureMatch {
    /// The path of the source file.
    pub path: String,
    pub text: String,
    pub offset: usize,
    pub params: Vec<SyscallSignatureParam>,
}

/// One parameter of a system call.
#[derive(Debug)]
pub struct SyscallSignatureParam {
    pub name: String,
    /// The parameter's type, as the sources write it.
    pub param_type: String,
}

impl SyscallSignature {
    /// The types of the parameters at the first place that matches.
    pub open spec fn first_types(&self) -> Seq<Seq<char>> {
        Seq::new(
            self.matches[0].params.len() as nat,
            |j: int| self.matches[0].params[j].param_type@,
        )
    }
}

impl SyscallInfo {
    /// Whether every signature has a place that matches it.
    pub open spec fn every_signature_matched(&self) -> bool {
        match self.inner {
            SyscallInfoInner::Signatures(signatures) => forall|i: int|
                0 <= i < signatures.len() ==> (#[trigger] signatures[i]).matches.len() > 0,
            SyscallInfoInner::Skipped(_) => true,
        }
    }

    /// Tells whether every signature has a place that matches it.
    pub fn has_every_match(&self) -> (r: bool)
        ensures
            r == self.every_signature_matched(),
    {
        match &self.inner {
            SyscallInfoInner::Skipped(_) => true,
            SyscallInfoInner::Signatures(signatures) => {
                let mut i: usize = 0;
                while i < signatures.len()
                    invariant
                        i <= signatures.len(),
                        self.inner == SyscallInfoInner::Signatures(*signatures),
                        forall|k: int| 0 <= k < i ==> (#[trigger] signatures[k]).matches.len() > 0,
                    decreases signatures.len() - i,
                {
                    if signatures[i].matches.len() == 0 {
                        assert(!((*signatures)[i as int].matches.len() > 0));
                        assert(self.inner->Signatures_0 == *signatures);
                        return false;
                    }
                    i += 1;
                }
                true
            },
        }
    }

    /// For each signature the types of its parameters; `None` for a call that was
    /// skipped.
    pub open spec fn types(&self) -> Option<Seq<Seq<Seq<char>>>> {
        match self.inner {
            SyscallInfoInner::Signatures(signatures) => Some(
                Seq::new(signatures.len() as nat, |i: int| signatures[i].first_types()),
            ),
            SyscallInfoInner::Skipped(_) => None,
        }
    }

    /// For each signature the types of its parameters, taken from the first place
    /// that matches the signature; `None` for a call that was skipped.
    pub fn param_types(&self) -> (r: Option<Vec<Vec<String>>>)
        requires
            self.every_signature_matched(),
        ensures
            r.deep_view() == self.types(),
    {
        match &self.inner {
            SyscallInfoInner::Skipped(_) => None,
            SyscallInfoInner::Signatures(signatures) => {
                let mut all: Vec<Vec<String>> = Vec::new();
                let mut i: usize = 0;
                while i < signatures.len()
                    invariant
                        i <= signatures.len(),
                        forall|k: int|
                            0 <= k < signatures.len() ==> (#[trigger] signatures[k]).matches.len()
                                > 0,
                        all.len() == i,
                        forall|k: int|
                            0 <= k < i ==> (#[trigger] all[k]).deep_view()
                                == signatures[k].first_types(),
                    decreases signatures.len() - i,
                {
                    assert(signatures[i as int].matches.len() > 0);
                    let params = &signatures[i].matches[0].params;
                    let mut types: Vec<String> = Vec::new();
                    let mut j: usize = 0;
                    while j < params.len()
                        invariant
                            j <= params.len(),
                            types.len() == j,
                            forall|k: int|
                                0 <= k < j ==> (#[trigger] types[k])@ == params[k].param_type@,
                        decreases params.len() - j,
                    {
                        types.push(params[j].param_type.clone());
                        j += 1;
                    }
                    assert(types.deep_view() =~= signatures[i as int].first_types());
                    all.push(types);
                    i += 1;
                }
                assert(all.deep_view() =~= self.types().unwrap());
                Some(all)
            },
        }
    }
}

} // verus!
