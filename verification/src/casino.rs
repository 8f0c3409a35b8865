//! The configuration record of a casino: who owns it, what the house
//! keeps, which bets it takes and who may settle wagers.

use crate::address::Address;
use crate::error::CasinoError;
use crate::payout::MAX_HOUSE_EDGE;
use crate::validation::{validate_bet_bounds, validate_house_edge};
use crate::wire::{
    get_bytes32, get_le, le_bytes, lemma_le_bytes_len, lemma_le_bytes_of_value,
    lemma_le_value_bound, lemma_le_value_of_bytes, lemma_pow256_values, put_bytes, put_le,
};
use vstd::prelude::*;

verus! {

/// The configuration record, as the engine holds it.
#[derive(Debug)]
pub struct CasinoState {
    /// The owner of the casino.
    pub authority: Address,
    /// The house edge in basis points.
    pub house_edge: u16,
    /// The lowest bet taken.
    pub min_bet: u64,
    /// The highest bet taken.
    pub max_bet: u64,
    /// Who may settle wagers.
    pub operators: Vec<Address>,
}

/// What a configuration record says.
pub struct CasinoModel {
    pub authority: Address,
    pub house_edge: u16,
    pub min_bet: u64,
    pub max_bet: u64,
    pub operators: Seq<Address>,
}

impl View for CasinoState {
    type V = CasinoModel;

    open spec fn view(&self) -> CasinoModel {
        CasinoModel {
            authority: self.authority,
            house_edge: self.house_edge,
            min_bet: self.min_bet,
            max_bet: self.max_bet,
            operators: self.operators@,
        }
    }
}

/// The length of a record's fixed part: authority, house edge, the two
/// bounds and the count of operators.
pub const CASINO_HEADER_LEN: usize = 54;

/// The bytes of a list of addresses, one address after the other.
pub open spec fn addresses_bytes(addresses: Seq<Address>) -> Seq<u8> {
    Seq::new(32 * addresses.len(), |i: int| addresses[i / 32]@[i % 32])
}

/// The addresses of a list that differ from `operator`, in their order.
pub open spec fn others(addresses: Seq<Address>, operator: Address) -> Seq<Address> {
    addresses.filter(|listed: Address| listed != operator)
}

/// A configuration that was made or rejected, by what it says.
pub open spec fn made_view(made: Result<CasinoState, CasinoError>) -> Result<
    CasinoModel,
    CasinoError,
> {
    match made {
        Ok(state) => Ok(state@),
        Err(error) => Err(error),
    }
}

impl CasinoModel {
    /// The invariant of a configuration: an edge of at most ten percent,
    /// bounds in order, and the authority among the operators, each of
    /// whom is listed once.
    pub open spec fn wf(self) -> bool {
        &&& self.house_edge <= MAX_HOUSE_EDGE
        &&& self.min_bet <= self.max_bet
        &&& self.operators.contains(self.authority)
        &&& self.operators.no_duplicates()
    }

    /// Whether the record can be written: the count of operators has to
    /// fit its four bytes.
    pub open spec fn encodable(self) -> bool {
        self.operators.len() <= u32::MAX
    }

    /// The bytes of the record: the authority, the house edge in two
    /// bytes, the two bounds in eight bytes each, the count of operators
    /// in four bytes and the operators, integers lowest byte first.
    pub open spec fn encoding(self) -> Seq<u8> {
        self.authority@ + le_bytes(self.house_edge as nat, 2) + le_bytes(self.min_bet as nat, 8)
            + le_bytes(self.max_bet as nat, 8) + le_bytes(self.operators.len(), 4)
            + addresses_bytes(self.operators)
    }

    /// The record that these bytes hold, if they hold one.
    pub open spec fn decoded(data: Seq<u8>) -> Option<CasinoModel> {
        if exists|model: CasinoModel| model.encodable() && model.encoding() == data {
            Some(choose|model: CasinoModel| model.encodable() && model.encoding() == data)
        } else {
            None
        }
    }

    /// Whether `who` may settle wagers.
    pub open spec fn is_operator(self, who: Address) -> bool {
        self.operators.contains(who)
    }

    /// The configuration a casino starts with: its authority is its only
    /// operator.
    pub open spec fn initial(authority: Address, house_edge: u16, min_bet: u64, max_bet: u64) -> Result<
        CasinoModel,
        CasinoError,
    > {
        if house_edge > MAX_HOUSE_EDGE {
            Err(CasinoError::InvalidHouseEdge)
        } else if min_bet > max_bet {
            Err(CasinoError::InvalidBetAmount)
        } else {
            Ok(CasinoModel { authority, house_edge, min_bet, max_bet, operators: seq![authority] })
        }
    }

    /// The configuration with each parameter that is given put in place
    /// of the old one.
    pub open spec fn with_params(
        self,
        house_edge: Option<u16>,
        min_bet: Option<u64>,
        max_bet: Option<u64>,
    ) -> CasinoModel {
        CasinoModel {
            house_edge: if house_edge is Some { house_edge->Some_0 } else { self.house_edge },
            min_bet: if min_bet is Some { min_bet->Some_0 } else { self.min_bet },
            max_bet: if max_bet is Some { max_bet->Some_0 } else { self.max_bet },
            ..self
        }
    }

    /// What an update of the parameters leads to: a new edge must be at
    /// most ten percent, and the bounds that result must be in order.
    pub open spec fn updated(
        self,
        house_edge: Option<u16>,
        min_bet: Option<u64>,
        max_bet: Option<u64>,
    ) -> Result<CasinoModel, CasinoError> {
        let next = self.with_params(house_edge, min_bet, max_bet);
        if house_edge is Some && house_edge->Some_0 > MAX_HOUSE_EDGE {
            Err(CasinoError::InvalidHouseEdge)
        } else if next.min_bet > next.max_bet {
            Err(CasinoError::InvalidBetAmount)
        } else {
            Ok(next)
        }
    }

    /// The configuration with `operator` among the operators: listed last
    /// if it was not listed yet.
    pub open spec fn with_operator(self, operator: Address) -> CasinoModel {
        if self.operators.contains(operator) {
            self
        } else {
            CasinoModel { operators: self.operators.push(operator), ..self }
        }
    }

    /// The configuration without `operator` among the operators, the
    /// others in their order.
    pub open spec fn without_operator(self, operator: Address) -> CasinoModel {
        CasinoModel { operators: others(self.operators, operator), ..self }
    }

    /// What removing `operator` leads to: the authority stays.
    pub open spec fn removed(self, operator: Address) -> Result<CasinoModel, CasinoError> {
        if operator == self.authority {
            Err(CasinoError::Unauthorized)
        } else {
            Ok(self.without_operator(operator))
        }
    }
}


/// A list's bytes grow by the bytes of the address that is added.
pub proof fn lemma_addresses_bytes_push(addresses: Seq<Address>, last: Address)
    ensures
        addresses_bytes(addresses.push(last)) == addresses_bytes(addresses) + last@,
{
    let whole = addresses_bytes(addresses.push(last));
    let parts = addresses_bytes(addresses) + last@;
    assert(whole.len() == parts.len());
    assert forall|i: int| 0 <= i < whole.len() implies whole[i] == parts[i] by {
        if i < 32 * addresses.len() {
            assert(i / 32 < addresses.len());
        } else {
            assert(i / 32 == addresses.len());
            assert(i % 32 == i - 32 * addresses.len());
        }
    }
    assert(whole =~= parts);
}

/// Lists of addresses with the same bytes are the same list.
pub proof fn lemma_addresses_bytes_injective(a: Seq<Address>, b: Seq<Address>)
    requires
        addresses_bytes(a) == addresses_bytes(b),
    ensures
        a == b,
{
    assert(addresses_bytes(a).len() == 32 * a.len());
    assert(addresses_bytes(b).len() == 32 * b.len());
    assert(a.len() == b.len());
    assert forall|k: int| 0 <= k < a.len() implies a[k] == b[k] by {
        assert forall|r: int| 0 <= r < 32 implies a[k]@[r] == b[k]@[r] by {
            let i = 32 * k + r;
            assert(i / 32 == k && i % 32 == r);
            assert(addresses_bytes(a)[i] == a[k]@[r]);
            assert(addresses_bytes(b)[i] == b[k]@[r]);
        }
        assert(a[k]@ =~= b[k]@);
        a[k].lemma_same_view(b[k]);
    }
    assert(a =~= b);
}

impl CasinoModel {
    /// Where each field lies in the bytes of a record.
    pub proof fn lemma_encoding_layout(self)
        ensures
            self.encoding().len() == CASINO_HEADER_LEN + 32 * self.operators.len(),
            self.encoding().subrange(0, 32) == self.authority@,
            self.encoding().subrange(32, 34) == le_bytes(self.house_edge as nat, 2),
            self.encoding().subrange(34, 42) == le_bytes(self.min_bet as nat, 8),
            self.encoding().subrange(42, 50) == le_bytes(self.max_bet as nat, 8),
            self.encoding().subrange(50, 54) == le_bytes(self.operators.len(), 4),
            self.encoding().skip(54) == addresses_bytes(self.operators),
    {
        lemma_le_bytes_len(self.house_edge as nat, 2);
        lemma_le_bytes_len(self.min_bet as nat, 8);
        lemma_le_bytes_len(self.max_bet as nat, 8);
        lemma_le_bytes_len(self.operators.len(), 4);
        let bytes = self.encoding();
        assert(bytes.subrange(0, 32) =~= self.authority@);
        assert(bytes.subrange(32, 34) =~= le_bytes(self.house_edge as nat, 2));
        assert(bytes.subrange(34, 42) =~= le_bytes(self.min_bet as nat, 8));
        assert(bytes.subrange(42, 50) =~= le_bytes(self.max_bet as nat, 8));
        assert(bytes.subrange(50, 54) =~= le_bytes(self.operators.len(), 4));
        assert(bytes.skip(54) =~= addresses_bytes(self.operators));
    }

    /// Records with the same bytes say the same.
    pub proof fn lemma_encoding_injective(self, other: CasinoModel)
        requires
            self.encodable(),
            other.encodable(),
            self.encoding() == other.encoding(),
        ensures
            self == other,
    {
        self.lemma_encoding_layout();
        other.lemma_encoding_layout();
        lemma_pow256_values();
        self.authority.lemma_same_view(other.authority);
        lemma_le_value_of_bytes(self.house_edge as nat, 2);
        lemma_le_value_of_bytes(other.house_edge as nat, 2);
        lemma_le_value_of_bytes(self.min_bet as nat, 8);
        lemma_le_value_of_bytes(other.min_bet as nat, 8);
        lemma_le_value_of_bytes(self.max_bet as nat, 8);
        lemma_le_value_of_bytes(other.max_bet as nat, 8);
        lemma_addresses_bytes_injective(self.operators, other.operators);
    }

    /// Reading a record's bytes gives the record, and what is read from
    /// bytes is written as those bytes.
    pub proof fn lemma_decoded(self, data: Seq<u8>)
        ensures
            self.encodable() ==> CasinoModel::decoded(self.encoding()) == Some(self),
            CasinoModel::decoded(data) == Some(self) ==> self.encodable() && self.encoding()
                == data,
    {
        if self.encodable() {
            let found = CasinoModel::decoded(self.encoding())->Some_0;
            found.lemma_encoding_injective(self);
        }
    }
}

impl CasinoState {
    /// Writes the record.  This fails only where the operators are too
    /// many to be counted in four bytes.
    pub fn try_to_vec(&self) -> (written: Result<Vec<u8>, CasinoError>)
        ensures
            match written {
                Ok(bytes) => self@.encodable() && bytes@ == self@.encoding(),
                Err(error) => !self@.encodable() && error == CasinoError::ArithmeticOverflow,
            },
    {
        let count: usize = self.operators.len();
        if count > 0xffff_ffff {
            return Err(CasinoError::ArithmeticOverflow);
        }
        let mut out: Vec<u8> = Vec::new();
        put_bytes(&mut out, self.authority.bytes.as_slice());
        put_le(&mut out, self.house_edge as u64, 2);
        put_le(&mut out, self.min_bet, 8);
        put_le(&mut out, self.max_bet, 8);
        put_le(&mut out, count as u64, 4);
        let ghost header = out@;
        let mut i: usize = 0;
        proof {
            assert(addresses_bytes(self.operators@.subrange(0, 0)) =~= Seq::<u8>::empty());
            assert(out@ =~= header + addresses_bytes(self.operators@.subrange(0, 0)));
        }
        while i < count
            invariant
                i <= count == self.operators@.len(),
                out@ == header + addresses_bytes(self.operators@.subrange(0, i as int)),
            decreases count - i,
        {
            let ghost before = out@;
            put_bytes(&mut out, self.operators[i].bytes.as_slice());
            proof {
                let listed = self.operators@.subrange(0, i as int);
                lemma_addresses_bytes_push(listed, self.operators@[i as int]);
                assert(listed.push(self.operators@[i as int]) =~= self.operators@.subrange(
                    0,
                    i + 1,
                ));
                assert(out@ =~= header + addresses_bytes(self.operators@.subrange(0, i + 1)));
            }
            i += 1;
        }
        proof {
            assert(self.operators@.subrange(0, count as int) =~= self.operators@);
            assert(out@ =~= self@.encoding());
        }
        Ok(out)
    }

    /// Reads a record.  The bytes must be a record's bytes from the first
    /// to the last.
    pub fn try_from_slice(data: &[u8]) -> (read: Result<CasinoState, CasinoError>)
        ensures
            match read {
                Ok(state) => CasinoModel::decoded(data@) == Some(state@),
                Err(error) => CasinoModel::decoded(data@) is None && error
                    == CasinoError::InvalidInstruction,
            },
    {
        let len: usize = data.len();
        if len < CASINO_HEADER_LEN {
            proof {
                assert forall|model: CasinoModel| model.encoding() != data@ by {
                    model.lemma_encoding_layout();
                }
            }
            return Err(CasinoError::InvalidInstruction);
        }
        let count: u64 = get_le(data, 50, 4);
        proof {
            lemma_le_value_bound(data@.subrange(50, 54));
            lemma_pow256_values();
        }
        if (len - CASINO_HEADER_LEN) as u64 != 32 * count {
            proof {
                assert forall|model: CasinoModel| model.encodable() implies model.encoding()
                    != data@ by {
                    model.lemma_encoding_layout();
                    lemma_le_value_of_bytes(model.operators.len(), 4);
                }
            }
            return Err(CasinoError::InvalidInstruction);
        }
        let authority = Address { bytes: get_bytes32(data, 0) };
        let house_edge: u16 = get_le(data, 32, 2) as u16;
        let min_bet: u64 = get_le(data, 34, 8);
        let max_bet: u64 = get_le(data, 42, 8);
        proof {
            lemma_le_value_bound(data@.subrange(32, 34));
            lemma_le_bytes_of_value(data@.subrange(32, 34));
            lemma_le_bytes_of_value(data@.subrange(34, 42));
            lemma_le_bytes_of_value(data@.subrange(42, 50));
            lemma_le_bytes_of_value(data@.subrange(50, 54));
        }
        let mut operators: Vec<Address> = Vec::new();
        let mut at: usize = CASINO_HEADER_LEN;
        while at < len
            invariant
                len == data@.len(),
                CASINO_HEADER_LEN <= at <= len,
                at == CASINO_HEADER_LEN + 32 * operators@.len(),
                len == CASINO_HEADER_LEN + 32 * count,
                forall|k: int|
                    0 <= k < operators@.len() ==> (#[trigger] operators@[k])@ == data@.subrange(
                        CASINO_HEADER_LEN + 32 * k,
                        CASINO_HEADER_LEN + 32 * k + 32,
                    ),
            decreases len - at,
        {
            operators.push(Address { bytes: get_bytes32(data, at) });
            at += 32;
        }
        let state = CasinoState { authority, house_edge, min_bet, max_bet, operators };
        proof {
            let model = state@;
            assert(model.operators.len() == count);
            let tail = addresses_bytes(model.operators);
            assert(tail.len() == data@.skip(54).len());
            assert forall|i: int| 0 <= i < tail.len() implies tail[i] == data@.skip(54)[i] by {
                let k = i / 32;
                assert(model.operators[k]@ == data@.subrange(54 + 32 * k, 54 + 32 * k + 32));
                assert(model.operators[k]@[i % 32] == data@[54 + 32 * k + i % 32]);
            }
            assert(tail =~= data@.skip(54));
            assert(model.encoding() =~= data@.subrange(0, 32) + data@.subrange(32, 34)
                + data@.subrange(34, 42) + data@.subrange(42, 50) + data@.subrange(50, 54)
                + data@.skip(54));
            assert(model.encoding() =~= data@);
            model.lemma_decoded(data@);
        }
        Ok(state)
    }
}


/// The others of a list that grew by one address: that address comes last
/// among them unless it is the one left out.
pub proof fn lemma_others_push(addresses: Seq<Address>, last: Address, operator: Address)
    ensures
        others(addresses.push(last), operator) == if last != operator {
            others(addresses, operator).push(last)
        } else {
            others(addresses, operator)
        },
        others(Seq::<Address>::empty(), operator) == Seq::<Address>::empty(),
{
    reveal(Seq::filter);
    assert(addresses.push(last).drop_last() =~= addresses);
}

/// The others are those listed that differ from `operator`; none of them
/// is listed twice where none was.
pub proof fn lemma_others_members(addresses: Seq<Address>, operator: Address)
    ensures
        forall|who: Address| #[trigger]
            others(addresses, operator).contains(who) <==> addresses.contains(who) && who
                != operator,
        addresses.no_duplicates() ==> others(addresses, operator).no_duplicates(),
        !addresses.contains(operator) ==> others(addresses, operator) == addresses,
        others(addresses, operator).len() <= addresses.len(),
    decreases addresses.len(),
{
    if addresses.len() == 0 {
        lemma_others_push(addresses, operator, operator);
        assert(addresses =~= Seq::<Address>::empty());
    } else {
        let front = addresses.drop_last();
        let last = addresses.last();
        lemma_others_members(front, operator);
        lemma_others_push(front, last, operator);
        assert(front.push(last) =~= addresses);
        let kept = others(addresses, operator);
        let kept_front = others(front, operator);
        assert forall|who: Address| #[trigger]
            kept.contains(who) <==> addresses.contains(who) && who != operator by {
            if kept.contains(who) {
                let i = choose|i: int| 0 <= i < kept.len() && kept[i] == who;
                if last != operator && i == kept.len() - 1 {
                    assert(addresses[addresses.len() - 1] == who);
                } else {
                    assert(kept_front[i] == who);
                    assert(kept_front.contains(who));
                    let j = choose|j: int| 0 <= j < front.len() && front[j] == who;
                    assert(addresses[j] == who);
                }
            }
            if addresses.contains(who) && who != operator {
                let j = choose|j: int| 0 <= j < addresses.len() && addresses[j] == who;
                if j == addresses.len() - 1 {
                    assert(kept[kept.len() - 1] == who);
                } else {
                    assert(front[j] == who);
                    assert(front.contains(who));
                    assert(others(front, operator).contains(who));
                    let i = choose|i: int| 0 <= i < kept_front.len() && kept_front[i] == who;
                    assert(kept[i] == who);
                }
            }
        }
        if addresses.no_duplicates() {
            assert(front.no_duplicates());
            if last != operator {
                assert(!front.contains(last)) by {
                    if front.contains(last) {
                        let j = choose|j: int| 0 <= j < front.len() && front[j] == last;
                        assert(addresses[j] == addresses[addresses.len() - 1]);
                    }
                }
                assert(!kept_front.contains(last));
                assert(kept.no_duplicates());
            }
        }
        if !addresses.contains(operator) {
            assert(!front.contains(operator)) by {
                if front.contains(operator) {
                    let j = choose|j: int| 0 <= j < front.len() && front[j] == operator;
                    assert(addresses[j] == operator);
                }
            }
            assert(last != operator) by {
                assert(addresses[addresses.len() - 1] == last);
            }
            assert(kept =~= addresses);
        }
    }
}

impl CasinoState {
    /// Makes the configuration a casino starts with.
    pub fn new(authority: Address, house_edge: u16, min_bet: u64, max_bet: u64) -> (made: Result<
        CasinoState,
        CasinoError,
    >)
        ensures
            made_view(made) == CasinoModel::initial(authority, house_edge, min_bet, max_bet),
            made is Ok ==> made->Ok_0@.wf(),
    {
        if let Err(error) = validate_house_edge(house_edge) {
            return Err(error);
        }
        if let Err(error) = validate_bet_bounds(min_bet, max_bet) {
            return Err(error);
        }
        let mut operators: Vec<Address> = Vec::new();
        operators.push(authority);
        proof {
            assert(operators@ =~= seq![authority]);
            assert(operators@[0] == authority);
        }
        Ok(CasinoState { authority, house_edge, min_bet, max_bet, operators })
    }

    /// Tells whether `who` may settle wagers.
    pub fn is_operator(&self, who: &Address) -> (listed: bool)
        ensures
            listed == self@.is_operator(*who),
    {
        let count: usize = self.operators.len();
        let mut i: usize = 0;
        while i < count
            invariant
                i <= count == self.operators@.len(),
                forall|j: int| 0 <= j < i ==> self.operators@[j] != *who,
            decreases count - i,
        {
            if self.operators[i] == *who {
                return true;
            }
            i += 1;
        }
        false
    }

    /// Puts each parameter that is given in place of the old one.  Where
    /// the update is rejected, the configuration stays as it was.
    pub fn update_params(
        &mut self,
        house_edge: Option<u16>,
        min_bet: Option<u64>,
        max_bet: Option<u64>,
    ) -> (done: Result<(), CasinoError>)
        ensures
            match done {
                Ok(()) => old(self)@.updated(house_edge, min_bet, max_bet) == Ok::<
                    CasinoModel,
                    CasinoError,
                >(final(self)@),
                Err(error) => old(self)@.updated(house_edge, min_bet, max_bet) == Err::<
                    CasinoModel,
                    CasinoError,
                >(error) && *final(self) == *old(self),
            },
            old(self)@.wf() ==> final(self)@.wf(),
    {
        let new_edge: u16 = match house_edge {
            Some(edge) => {
                if let Err(error) = validate_house_edge(edge) {
                    return Err(error);
                }
                edge
            },
            None => self.house_edge,
        };
        let new_min: u64 = match min_bet {
            Some(min) => min,
            None => self.min_bet,
        };
        let new_max: u64 = match max_bet {
            Some(max) => max,
            None => self.max_bet,
        };
        if let Err(error) = validate_bet_bounds(new_min, new_max) {
            return Err(error);
        }
        self.house_edge = new_edge;
        self.min_bet = new_min;
        self.max_bet = new_max;
        Ok(())
    }

    /// Lists `operator` among the operators, unless it is listed already.
    /// Tells whether the list has changed.
    pub fn add_operator(&mut self, operator: Address) -> (added: bool)
        ensures
            final(self)@ == old(self)@.with_operator(operator),
            added == !old(self)@.is_operator(operator),
            final(self)@.is_operator(operator),
            old(self)@.wf() ==> final(self)@.wf(),
    {
        if self.is_operator(&operator) {
            false
        } else {
            self.operators.push(operator);
            proof {
                let before = old(self)@.operators;
                let after = self@.operators;
                assert(after[before.len() as int] == operator);
                if before.contains(self.authority) {
                    let i = choose|i: int| 0 <= i < before.len() && before[i] == self.authority;
                    assert(after[i] == self.authority);
                }
            }
            true
        }
    }

    /// Takes `operator` off the operators.  The authority cannot be taken
    /// off.  Tells whether the list has changed; where the removal is
    /// rejected, the configuration stays as it was.
    pub fn remove_operator(&mut self, operator: &Address) -> (removed: Result<bool, CasinoError>)
        ensures
            match removed {
                Ok(changed) => old(self)@.removed(*operator) == Ok::<CasinoModel, CasinoError>(
                    final(self)@,
                ) && changed == old(self)@.is_operator(*operator),
                Err(error) => old(self)@.removed(*operator) == Err::<CasinoModel, CasinoError>(
                    error,
                ) && *final(self) == *old(self),
            },
            removed is Ok ==> !final(self)@.is_operator(*operator),
            old(self)@.wf() ==> final(self)@.wf(),
    {
        if *operator == self.authority {
            return Err(CasinoError::Unauthorized);
        }
        proof {
            lemma_others_members(self@.operators, *operator);
        }
        let count: usize = self.operators.len();
        let mut kept: Vec<Address> = Vec::new();
        let mut changed: bool = false;
        let mut i: usize = 0;
        proof {
            lemma_others_push(self.operators@, *operator, *operator);
            assert(self.operators@.subrange(0, 0) =~= Seq::<Address>::empty());
        }
        while i < count
            invariant
                i <= count == self.operators@.len(),
                kept@ == others(self.operators@.subrange(0, i as int), *operator),
                changed == self.operators@.subrange(0, i as int).contains(*operator),
            decreases count - i,
        {
            let listed = self.operators[i];
            proof {
                let front = self.operators@.subrange(0, i as int);
                let longer = self.operators@.subrange(0, i + 1);
                lemma_others_push(front, listed, *operator);
                assert(front.push(listed) =~= longer);
                if front.contains(*operator) {
                    let j = choose|j: int| 0 <= j < front.len() && front[j] == *operator;
                    assert(longer[j] == *operator);
                }
                if listed == *operator {
                    assert(longer[i as int] == *operator);
                }
                if longer.contains(*operator) && listed != *operator {
                    let j = choose|j: int| 0 <= j < longer.len() && longer[j] == *operator;
                    assert(front[j] == *operator);
                }
            }
            if listed == *operator {
                changed = true;
            } else {
                kept.push(listed);
            }
            i += 1;
        }
        proof {
            assert(self.operators@.subrange(0, count as int) =~= self.operators@);
        }
        self.operators = kept;
        Ok(changed)
    }
}

} // verus!
