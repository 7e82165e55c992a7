//! The answers of the chain's address codec, and what a call runs with.
use vstd::prelude::*;

use crate::error::{result_view, ErrorView, StdError, StdResult};
use crate::state::{copy_bytes, CanonicalAddr, Storage};

verus! {

/// An account as people write it.
pub type HumanAddr = String;

/// The canonical addresses that some answers stand for: a later answer replaces
/// an earlier one for the same account.
pub open spec fn canonical_map(answers: Seq<(HumanAddr, StdResult<CanonicalAddr>)>) -> Map<
    Seq<char>,
    Result<Seq<u8>, ErrorView>,
>
    decreases answers.len(),
{
    if answers.len() == 0 {
        Map::empty()
    } else {
        canonical_map(answers.drop_last()).insert(
            answers.last().0@,
            result_view(answers.last().1),
        )
    }
}

/// The human addresses that some answers stand for: a later answer replaces an
/// earlier one for the same account.
pub open spec fn human_map(answers: Seq<(CanonicalAddr, StdResult<HumanAddr>)>) -> Map<
    Seq<u8>,
    Result<Seq<char>, ErrorView>,
>
    decreases answers.len(),
{
    if answers.len() == 0 {
        Map::empty()
    } else {
        human_map(answers.drop_last()).insert(answers.last().0@, result_view(answers.last().1))
    }
}

/// What the chain's address codec answers.
///
/// The codec is a function from addresses to answers. It is given here by the
/// answers for the addresses that matter and by one more for all the others.
#[derive(Debug, PartialEq)]
pub struct Api {
    canonical: Vec<(HumanAddr, StdResult<CanonicalAddr>)>,
    human: Vec<(CanonicalAddr, StdResult<HumanAddr>)>,
    otherwise: StdError,
}

/// What an [`Api`] answers.
#[verifier::ext_equal]
pub struct ApiView {
    pub canonical: Map<Seq<char>, Result<Seq<u8>, ErrorView>>,
    pub human: Map<Seq<u8>, Result<Seq<char>, ErrorView>>,
    pub otherwise: ErrorView,
}

impl View for Api {
    type V = ApiView;

    closed spec fn view(&self) -> ApiView {
        ApiView {
            canonical: canonical_map(self.canonical@),
            human: human_map(self.human@),
            otherwise: self.otherwise@,
        }
    }
}

impl ApiView {
    /// The answer for the canonical form of `human`.
    pub open spec fn canonical_address(self, human: Seq<char>) -> Result<Seq<u8>, ErrorView> {
        if self.canonical.contains_key(human) {
            self.canonical[human]
        } else {
            Err(self.otherwise)
        }
    }

    /// The answer for the human form of `canonical`.
    pub open spec fn human_address(self, canonical: Seq<u8>) -> Result<Seq<char>, ErrorView> {
        if self.human.contains_key(canonical) {
            self.human[canonical]
        } else {
            Err(self.otherwise)
        }
    }
}

impl Api {
    /// A codec that answers `otherwise` for every address.
    pub fn new(otherwise: StdError) -> (api: Api)
        ensures
            api@ == (ApiView {
                canonical: Map::empty(),
                human: Map::empty(),
                otherwise: otherwise@,
            }),
    {
        Api { canonical: Vec::new(), human: Vec::new(), otherwise }
    }

    /// Makes `answer` the one for the canonical form of `human`.
    pub fn answer_canonical(&mut self, human: HumanAddr, answer: StdResult<CanonicalAddr>)
        ensures
            final(self)@ == (ApiView {
                canonical: old(self)@.canonical.insert(human@, result_view(answer)),
                ..old(self)@
            }),
    {
        let ghost before = self.canonical@;
        self.canonical.push((human, answer));
        assert(self.canonical@.drop_last() =~= before);
    }

    /// Makes `answer` the one for the human form of `canonical`.
    pub fn answer_human(&mut self, canonical: CanonicalAddr, answer: StdResult<HumanAddr>)
        ensures
            final(self)@ == (ApiView {
                human: old(self)@.human.insert(canonical@, result_view(answer)),
                ..old(self)@
            }),
    {
        let ghost before = self.human@;
        self.human.push((canonical, answer));
        assert(self.human@.drop_last() =~= before);
    }

    /// The canonical form of `human`.
    pub fn canonical_address(&self, human: &HumanAddr) -> (answer: StdResult<CanonicalAddr>)
        ensures
            result_view(answer) == self@.canonical_address(human@),
    {
        let mut i: usize = self.canonical.len();
        assert(self.canonical@.take(i as int) =~= self.canonical@);
        while i > 0
            invariant
                i <= self.canonical@.len(),
                self@.canonical_address(human@) == (ApiView {
                    canonical: canonical_map(self.canonical@.take(i as int)),
                    ..self@
                }).canonical_address(human@),
            decreases i,
        {
            i -= 1;
            proof {
                let longer = self.canonical@.take(i + 1);
                assert(longer.drop_last() =~= self.canonical@.take(i as int));
                assert(longer.last() == self.canonical@[i as int]);
            }
            if self.canonical[i].0 == *human {
                return match &self.canonical[i].1 {
                    Ok(canonical) => Ok(copy_bytes(canonical)),
                    Err(error) => Err(error.clone()),
                };
            }
        }
        Err(self.otherwise.clone())
    }

    /// The human form of `canonical`.
    pub fn human_address(&self, canonical: &CanonicalAddr) -> (answer: StdResult<HumanAddr>)
        ensures
            result_view(answer) == self@.human_address(canonical@),
    {
        let mut i: usize = self.human.len();
        assert(self.human@.take(i as int) =~= self.human@);
        while i > 0
            invariant
                i <= self.human@.len(),
                self@.human_address(canonical@) == (ApiView {
                    human: human_map(self.human@.take(i as int)),
                    ..self@
                }).human_address(canonical@),
            decreases i,
        {
            i -= 1;
            proof {
                let longer = self.human@.take(i + 1);
                assert(longer.drop_last() =~= self.human@.take(i as int));
                assert(longer.last() == self.human@[i as int]);
            }
            if self.human[i].0 == *canonical {
                assert(self.human@[i as int].0@ =~= canonical@);
                return match &self.human[i].1 {
                    Ok(human) => Ok(human.clone()),
                    Err(error) => Err(error.clone()),
                };
            }
        }
        Err(self.otherwise.clone())
    }
}

/// What a call runs with: the contract's records and the address codec.
#[derive(Debug, PartialEq)]
pub struct Extern {
    pub storage: Storage,
    pub api: Api,
}

} // verus!
