//! Hashes, transactions and blocks

use vstd::prelude::*;

verus! {

/// The hash that names a transaction, whatever its witnesses
#[derive(Debug, Clone, Copy, PartialEq, Eq)]
pub struct Txid(pub [u8; 32]);

/// The hash that names a transaction together with its witnesses
#[derive(Debug, Clone, Copy, PartialEq, Eq)]
pub struct Wtxid(pub [u8; 32]);

/// The hash that names a block
#[derive(Debug, Clone, Copy, PartialEq, Eq)]
pub struct BlockHash(pub [u8; 32]);

impl View for Txid {
    type V = Seq<u8>;

    open spec fn view(&self) -> Seq<u8> {
        self.0@
    }
}

impl View for Wtxid {
    type V = Seq<u8>;

    open spec fn view(&self) -> Seq<u8> {
        self.0@
    }
}

/// An output of a transaction, by where it stands
#[derive(Debug, Clone, Copy, PartialEq, Eq)]
pub struct OutPoint {
    /// The transaction
    pub txid: Txid,
    /// The place among its outputs
    pub vout: u32,
}

/// An input of a transaction
#[derive(Debug, PartialEq, Eq)]
pub struct TxIn {
    /// The output that is spent
    pub previous_output: OutPoint,
    /// The script that unlocks it
    pub script_sig: Vec<u8>,
    /// The sequence number
    pub sequence: u32,
    /// The witness that unlocks it
    pub witness: Vec<Vec<u8>>,
}

/// An output of a transaction
#[derive(Debug, PartialEq, Eq)]
pub struct TxOut {
    /// The value in satoshis
    pub value: u64,
    /// The script that locks it
    pub script_pubkey: Vec<u8>,
}

/// A transaction
#[derive(Debug, PartialEq, Eq)]
pub struct Transaction {
    /// The version of its format
    pub version: i32,
    /// The height or the time from which on it can be in a block
    pub lock_time: u32,
    /// Its inputs
    pub input: Vec<TxIn>,
    /// Its outputs
    pub output: Vec<TxOut>,
}

/// What an input says
pub struct TxInView {
    pub previous_output: OutPoint,
    pub script_sig: Seq<u8>,
    pub sequence: u32,
    pub witness: Seq<Seq<u8>>,
}

/// What an output says
pub struct TxOutView {
    pub value: u64,
    pub script_pubkey: Seq<u8>,
}

/// What a transaction says
pub struct TransactionView {
    pub version: i32,
    pub lock_time: u32,
    pub input: Seq<TxInView>,
    pub output: Seq<TxOutView>,
}

/// The elements of a witness
pub open spec fn elements(witness: Seq<Vec<u8>>) -> Seq<Seq<u8>> {
    witness.map_values(|element: Vec<u8>| element@)
}

impl View for TxIn {
    type V = TxInView;

    open spec fn view(&self) -> TxInView {
        TxInView {
            previous_output: self.previous_output,
            script_sig: self.script_sig@,
            sequence: self.sequence,
            witness: elements(self.witness@),
        }
    }
}

impl View for TxOut {
    type V = TxOutView;

    open spec fn view(&self) -> TxOutView {
        TxOutView { value: self.value, script_pubkey: self.script_pubkey@ }
    }
}

impl View for Transaction {
    type V = TransactionView;

    open spec fn view(&self) -> TransactionView {
        TransactionView {
            version: self.version,
            lock_time: self.lock_time,
            input: self.input@.map_values(|input: TxIn| input@),
            output: self.output@.map_values(|output: TxOut| output@),
        }
    }
}

impl TransactionView {
    /// The transaction without its witnesses
    pub open spec fn stripped(self) -> TransactionView {
        TransactionView {
            input: self.input.map_values(
                |input: TxInView| TxInView { witness: Seq::empty(), ..input },
            ),
            ..self
        }
    }
}

/// The txid of a transaction without witnesses
pub uninterp spec fn stripped_txid(tx: TransactionView) -> Seq<u8>;

/// The wtxid of a transaction
pub uninterp spec fn wtxid_of(tx: TransactionView) -> Seq<u8>;

/// The txid of a transaction: that of the transaction without its witnesses
pub open spec fn txid_of(tx: TransactionView) -> Seq<u8> {
    stripped_txid(tx.stripped())
}

/// `bitcoin::Transaction::txid`. It is a hash of the transaction without its witnesses, and
/// of nothing else.
#[verifier::external_body]
fn compute_txid(tx: &Transaction) -> (txid: [u8; 32])
    ensures
        txid@ == stripped_txid(tx@.stripped()),
{
    let input = tx.input.iter().map(|i| bitcoin::TxIn {
        previous_output: bitcoin::OutPoint {
            txid: bitcoin::hashes::Hash::from_inner(i.previous_output.txid.0),
            vout: i.previous_output.vout,
        },
        script_sig: i.script_sig.clone().into(),
        sequence: bitcoin::Sequence(i.sequence),
        witness: bitcoin::Witness::from_vec(i.witness.clone()),
    }).collect();
    let output = tx.output.iter()
        .map(|o| bitcoin::TxOut { value: o.value, script_pubkey: o.script_pubkey.clone().into() })
        .collect();
    let lock_time = bitcoin::PackedLockTime(tx.lock_time);
    let tx = bitcoin::Transaction { version: tx.version, lock_time, input, output };
    bitcoin::hashes::Hash::into_inner(tx.txid())
}

/// `bitcoin::Transaction::wtxid`. It is a hash of the transaction with its witnesses, and of
/// nothing else.
#[verifier::external_body]
fn compute_wtxid(tx: &Transaction) -> (wtxid: [u8; 32])
    ensures
        wtxid@ == wtxid_of(tx@),
{
    let input = tx.input.iter().map(|i| bitcoin::TxIn {
        previous_output: bitcoin::OutPoint {
            txid: bitcoin::hashes::Hash::from_inner(i.previous_output.txid.0),
            vout: i.previous_output.vout,
        },
        script_sig: i.script_sig.clone().into(),
        sequence: bitcoin::Sequence(i.sequence),
        witness: bitcoin::Witness::from_vec(i.witness.clone()),
    }).collect();
    let output = tx.output.iter()
        .map(|o| bitcoin::TxOut { value: o.value, script_pubkey: o.script_pubkey.clone().into() })
        .collect();
    let lock_time = bitcoin::PackedLockTime(tx.lock_time);
    let tx = bitcoin::Transaction { version: tx.version, lock_time, input, output };
    bitcoin::hashes::Hash::into_inner(tx.wtxid())
}

impl Transaction {
    /// The hash that names the transaction, whatever its witnesses
    pub fn txid(&self) -> (txid: Txid)
        ensures
            txid@ == txid_of(self@),
            txid.0@ == stripped_txid(self@.stripped()),
    {
        Txid(compute_txid(self))
    }

    /// The hash that names the transaction together with its witnesses
    pub fn wtxid(&self) -> (wtxid: Wtxid)
        ensures
            wtxid@ == wtxid_of(self@),
            wtxid.0@ == wtxid_of(self@),
    {
        Wtxid(compute_wtxid(self))
    }
}

impl Clone for TxIn {
    fn clone(&self) -> (r: Self)
        ensures
            r@ == self@,
            r.previous_output == self.previous_output,
            r.script_sig@ == self.script_sig@,
            r.sequence == self.sequence,
            r.witness@.len() == self.witness@.len(),
            forall|i: int|
                0 <= i < self.witness@.len() ==> (#[trigger] r.witness@[i])@ == self.witness@[i]@,
    {
        let mut witness: Vec<Vec<u8>> = Vec::new();
        for i in 0..self.witness.len()
            invariant
                elements(witness@) == elements(self.witness@).take(i as int),
        {
            let element = self.witness[i].clone();
            assert(element@ =~= self.witness@[i as int]@);
            let ghost before = witness@;
            witness.push(element);
            assert(elements(witness@) =~= elements(before).push(element@));
            assert(elements(self.witness@).take(i + 1) =~= elements(self.witness@).take(
                i as int,
            ).push(element@));
        }
        assert(elements(witness@) =~= elements(self.witness@));
        assert forall|i: int| 0 <= i < self.witness@.len() implies (#[trigger] witness@[i])@
            == self.witness@[i]@ by {
            assert(elements(witness@)[i] == elements(self.witness@)[i]);
        }
        let script_sig = self.script_sig.clone();
        assert(script_sig@ =~= self.script_sig@);
        TxIn {
            previous_output: self.previous_output,
            script_sig,
            sequence: self.sequence,
            witness,
        }
    }
}

impl Clone for TxOut {
    fn clone(&self) -> (r: Self)
        ensures
            r@ == self@,
            r.value == self.value,
            r.script_pubkey@ == self.script_pubkey@,
    {
        let script_pubkey = self.script_pubkey.clone();
        assert(script_pubkey@ =~= self.script_pubkey@);
        TxOut { value: self.value, script_pubkey }
    }
}

impl Clone for Transaction {
    fn clone(&self) -> (r: Self)
        ensures
            r@ == self@,
            r.version == self.version,
            r.lock_time == self.lock_time,
            r.input@.len() == self.input@.len(),
            forall|i: int|
                0 <= i < self.input@.len() ==> (#[trigger] r.input@[i])@ == self.input@[i]@,
            r.output@.len() == self.output@.len(),
            forall|i: int|
                0 <= i < self.output@.len() ==> (#[trigger] r.output@[i])@ == self.output@[i]@,
    {
        let mut input: Vec<TxIn> = Vec::new();
        for i in 0..self.input.len()
            invariant
                input.len() == i,
                forall|j: int| 0 <= j < i ==> (#[trigger] input@[j])@ == self.input@[j]@,
        {
            input.push(self.input[i].clone());
        }
        let mut output: Vec<TxOut> = Vec::new();
        for i in 0..self.output.len()
            invariant
                output.len() == i,
                forall|j: int| 0 <= j < i ==> (#[trigger] output@[j])@ == self.output@[j]@,
        {
            output.push(self.output[i].clone());
        }
        let r = Transaction { version: self.version, lock_time: self.lock_time, input, output };
        assert(r@.input =~= self@.input);
        assert(r@.output =~= self@.output);
        r
    }
}

/// Two transactions that differ in nothing but their witnesses have the same txid.
pub proof fn law_txid_ignores_witnesses(a: TransactionView, b: TransactionView)
    ensures
        a.stripped() == b.stripped() ==> txid_of(a) == txid_of(b),
        txid_of(a.stripped()) == txid_of(a),
{
    assert(a.stripped().stripped().input =~= a.stripped().input);
}

/// What stands at the head of a block
#[derive(Debug, Clone, Copy, PartialEq, Eq)]
pub struct BlockHeader {
    /// The version of the block
    pub version: i32,
    /// The block before this one
    pub prev_blockhash: BlockHash,
    /// The root of the tree of its transactions
    pub merkle_root: [u8; 32],
    /// When it was found, as its finder says
    pub time: u32,
    /// The target of its hash, in short form
    pub bits: u32,
    /// The number that makes its hash meet the target
    pub nonce: u32,
}

/// A block
#[derive(Debug, PartialEq, Eq)]
pub struct Block {
    /// What stands at its head
    pub header: BlockHeader,
    /// Its transactions
    pub txdata: Vec<Transaction>,
}

/// What a block says
pub struct BlockView {
    pub header: BlockHeader,
    pub txdata: Seq<TransactionView>,
}

impl View for Block {
    type V = BlockView;

    open spec fn view(&self) -> BlockView {
        BlockView {
            header: self.header,
            txdata: self.txdata@.map_values(|tx: Transaction| tx@),
        }
    }
}

/// A hash stands for its bytes.
pub proof fn law_hashes_are_their_bytes(txid: Txid, wtxid: Wtxid)
    ensures
        txid@ == txid.0@,
        wtxid@ == wtxid.0@,
{
}

/// What an input says is what it holds, witness included.
pub proof fn law_input_says_what_it_holds(input: TxIn)
    ensures
        input@.previous_output == input.previous_output,
        input@.script_sig == input.script_sig@,
        input@.sequence == input.sequence,
        input@.witness.len() == input.witness@.len(),
        forall|i: int|
            0 <= i < input.witness@.len() ==> #[trigger] input@.witness[i] == input.witness@[i]@,
{
}

/// What a transaction says is what it holds, input by input and output by output.
pub proof fn law_transaction_says_what_it_holds(tx: Transaction)
    ensures
        tx@.version == tx.version,
        tx@.lock_time == tx.lock_time,
        tx@.input.len() == tx.input@.len(),
        forall|i: int| 0 <= i < tx.input@.len() ==> #[trigger] tx@.input[i] == tx.input@[i]@,
        tx@.output.len() == tx.output@.len(),
        forall|i: int|
            0 <= i < tx.output@.len() ==> {
                &&& (#[trigger] tx@.output[i]).value == tx.output@[i].value
                &&& tx@.output[i].script_pubkey == tx.output@[i].script_pubkey@
            },
{
}

/// What a block says is what it holds, transaction by transaction.
pub proof fn law_block_says_what_it_holds(block: Block)
    ensures
        block@.header == block.header,
        block@.txdata.len() == block.txdata@.len(),
        forall|i: int|
            0 <= i < block.txdata@.len() ==> #[trigger] block@.txdata[i] == block.txdata@[i]@,
{
}

/// A transaction without its witnesses is the same transaction but for them, and its txid is
/// that of the transaction.
pub proof fn law_stripping_takes_only_witnesses(tx: TransactionView)
    ensures
        tx.stripped().version == tx.version,
        tx.stripped().lock_time == tx.lock_time,
        tx.stripped().output == tx.output,
        tx.stripped().input.len() == tx.input.len(),
        forall|i: int|
            0 <= i < tx.input.len() ==> {
                &&& (#[trigger] tx.stripped().input[i]).previous_output
                    == tx.input[i].previous_output
                &&& tx.stripped().input[i].script_sig == tx.input[i].script_sig
                &&& tx.stripped().input[i].sequence == tx.input[i].sequence
                &&& tx.stripped().input[i].witness.len() == 0
            },
        txid_of(tx) == stripped_txid(tx.stripped()),
{
}

} // verus!
