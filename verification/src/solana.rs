//! Reading of ledger transactions: what a confirmed transaction says about a
//! memo, and whether the memo holds a title and a content.

use crate::document::Document;
use crate::text::{blank, copy_texts, is_blank, same_text, texts_of};
use rand::seq::IndexedRandom;
use vstd::prelude::*;

verus! {

/// What was read out of a confirmed transaction.
#[derive(Debug, PartialEq, Eq)]
pub struct ProcessedTransaction {
    pub signature: String,
    pub slot: Option<u64>,
    pub block_time: Option<i64>,
    pub program_id: Option<String>,
    pub success: bool,
    pub logs: Vec<String>,
    pub encoding_type: String,
    pub raw_data: Option<Document>,
    pub from: String,
    pub to: Vec<String>,
}

/// The memo of a transaction.
#[derive(Debug, PartialEq, Eq)]
pub struct TitleContent {
    pub p: String,
    pub uri: String,
    pub title: String,
    pub content: String,
}

/// One account of a transaction.
#[derive(Debug, PartialEq, Eq)]
pub struct AccountKey {
    pub pubkey: String,
    pub signer: bool,
    pub writable: bool,
}

/// One instruction of a transaction that the ledger has parsed.
#[derive(Debug, PartialEq, Eq)]
pub struct ParsedInstruction {
    pub program: String,
    pub program_id: String,
    pub parsed: Document,
}

/// How a transaction ended.
#[derive(Debug, PartialEq, Eq)]
pub struct TransactionMeta {
    /// Whether the transaction went through without an error.
    pub succeeded: bool,
    /// The log of the transaction, where the ledger kept one.
    pub log_messages: Option<Vec<String>>,
}

/// The message of a transaction that the ledger has parsed.
#[derive(Debug, PartialEq, Eq)]
pub struct ParsedMessage {
    pub account_keys: Vec<AccountKey>,
    /// The instructions in their order; nothing stands for one that the
    /// ledger has not parsed.
    pub instructions: Vec<Option<ParsedInstruction>>,
}

/// How the ledger handed a transaction out.
#[derive(Debug, PartialEq, Eq)]
pub enum Encoded {
    /// As a document, with a parsed message or one that is not.
    Json(Option<ParsedMessage>),
    /// In another form.
    Other,
}

/// A confirmed transaction, as far as it is read.
#[derive(Debug, PartialEq, Eq)]
pub struct ConfirmedTransaction {
    pub slot: u64,
    pub block_time: Option<i64>,
    pub meta: Option<TransactionMeta>,
    pub transaction: Encoded,
}

/// Why a transaction holds no usable memo.
#[derive(Debug, Clone, Copy, PartialEq, Eq, Structural)]
pub enum MemoError {
    /// The transaction did not go through.
    NotSuccessful,
    /// The transaction holds no memo.
    NoRawData,
    /// The memo has a blank address, title or content.
    Invalid,
}

/// The key of the last account that signs, or the empty text.
pub open spec fn last_signer(keys: Seq<AccountKey>) -> Seq<char>
    decreases keys.len(),
{
    if keys.len() == 0 {
        Seq::empty()
    } else if keys.last().signer {
        keys.last().pubkey@
    } else {
        last_signer(keys.drop_last())
    }
}

/// The keys of the accounts that are written to and do not sign, in order.
pub open spec fn written_accounts(keys: Seq<AccountKey>) -> Seq<Seq<char>>
    decreases keys.len(),
{
    if keys.len() == 0 {
        Seq::empty()
    } else {
        let before = written_accounts(keys.drop_last());
        if !keys.last().signer && keys.last().writable {
            before.push(keys.last().pubkey@)
        } else {
            before
        }
    }
}

/// The program that records memos.
pub open spec fn memo_program() -> Seq<char> {
    "MemoSq4gqABAXKb96qnH8TysNcWxMyWCqXgDLGmfcHr"@
}

/// An instruction of the memo program.
pub open spec fn is_memo(instruction: Option<ParsedInstruction>) -> bool {
    match instruction {
        Some(parsed) => parsed.program@ == "spl-memo"@ && parsed.program_id@ == memo_program(),
        None => false,
    }
}

/// The index of the last memo instruction, or -1 where there is none.
pub open spec fn last_memo(instructions: Seq<Option<ParsedInstruction>>) -> int
    decreases instructions.len(),
{
    if instructions.len() == 0 {
        -1
    } else if is_memo(instructions.last()) {
        instructions.len() - 1
    } else {
        last_memo(instructions.drop_last())
    }
}

/// The index of the memo that is read: the last one of a transaction with
/// more than two instructions, and -1 for any other transaction.
pub open spec fn memo_read(instructions: Seq<Option<ParsedInstruction>>) -> int {
    if instructions.len() > 2 {
        last_memo(instructions)
    } else {
        -1
    }
}

impl ProcessedTransaction {
    /// What is read of how the transaction ended.
    pub open spec fn reads_meta(self, transaction: ConfirmedTransaction) -> bool {
        match transaction.meta {
            Some(meta) => {
                &&& self.success == meta.succeeded
                &&& texts_of(self.logs@) == match meta.log_messages {
                    Some(logs) => texts_of(logs@),
                    None => Seq::empty(),
                }
            },
            None => !self.success && self.logs@.len() == 0,
        }
    }

    /// What is read of the message: who sent, who received, and the memo.
    pub open spec fn reads_message(self, transaction: ConfirmedTransaction) -> bool {
        match transaction.transaction {
            Encoded::Json(Some(message)) => {
                let memo = memo_read(message.instructions@);
                &&& self.encoding_type@ == "Json"@
                &&& self.from@ == last_signer(message.account_keys@)
                &&& texts_of(self.to@) == written_accounts(message.account_keys@)
                &&& if memo >= 0 {
                    &&& self.program_id matches Some(id)
                    &&& id@ == memo_program()
                    &&& self.block_time == transaction.block_time
                    &&& self.raw_data matches Some(data)
                    &&& data@ == message.instructions@[memo]->Some_0.parsed@
                } else {
                    self.program_id is None && self.block_time is None && self.raw_data is None
                }
            },
            Encoded::Json(None) => {
                &&& self.encoding_type@ == "Json"@
                &&& self.unread()
            },
            Encoded::Other => {
                &&& self.encoding_type@.len() == 0
                &&& self.unread()
            },
        }
    }

    /// Nothing was read of the message.
    pub open spec fn unread(self) -> bool {
        &&& self.from@.len() == 0
        &&& self.to@.len() == 0
        &&& self.program_id is None
        &&& self.block_time is None
        &&& self.raw_data is None
    }
}

impl Clone for ProcessedTransaction {
    fn clone(&self) -> (copy: ProcessedTransaction)
        ensures
            copy.signature@ == self.signature@,
            copy.slot == self.slot,
            copy.block_time == self.block_time,
            copy.success == self.success,
            copy.encoding_type@ == self.encoding_type@,
            copy.from@ == self.from@,
            texts_of(copy.logs@) == texts_of(self.logs@),
            texts_of(copy.to@) == texts_of(self.to@),
            match self.program_id {
                Some(id) => copy.program_id matches Some(other) && other@ == id@,
                None => copy.program_id is None,
            },
            match self.raw_data {
                Some(data) => copy.raw_data matches Some(other) && other@ == data@,
                None => copy.raw_data is None,
            },
    {
        ProcessedTransaction {
            signature: self.signature.clone(),
            slot: self.slot,
            block_time: self.block_time,
            program_id: match &self.program_id {
                Some(id) => Some(id.clone()),
                None => None,
            },
            success: self.success,
            logs: copy_texts(&self.logs),
            encoding_type: self.encoding_type.clone(),
            raw_data: match &self.raw_data {
                Some(data) => Some(data.clone()),
                None => None,
            },
            from: self.from.clone(),
            to: copy_texts(&self.to),
        }
    }
}

/// One of the endpoints of the ledger, picked at random.
///
/// Calls `rand::seq::IndexedRandom::choose` on the slice of the endpoints
/// with the generator of the thread. It returns one of the elements, and
/// nothing for an empty slice; which element comes is left open.
#[verifier::external_body]
fn choose_point(solana_points: &Vec<String>) -> (chosen: Option<&String>)
    ensures
        match chosen {
            Some(point) => exists|i: int|
                0 <= i < solana_points.len() && *point == #[trigger] solana_points@[i],
            None => solana_points.len() == 0,
        },
{
    solana_points.as_slice().choose(&mut rand::rng())
}

/// One of the endpoints of the ledger, picked at random.
pub fn get_random_point(solana_points: &Vec<String>) -> (point: &String)
    requires
        solana_points.len() > 0,
    ensures
        exists|i: int| 0 <= i < solana_points.len() && *point == #[trigger] solana_points@[i],
{
    match choose_point(solana_points) {
        Some(point) => point,
        None => &solana_points[0],
    }
}

/// Whether an instruction belongs to the memo program.
fn memo_instruction(instruction: &Option<ParsedInstruction>) -> (memo: bool)
    ensures
        memo == is_memo(*instruction),
{
    match instruction {
        Some(parsed) => same_text(parsed.program.as_str(), "spl-memo") && same_text(
            parsed.program_id.as_str(),
            "MemoSq4gqABAXKb96qnH8TysNcWxMyWCqXgDLGmfcHr",
        ),
        None => false,
    }
}

/// Reads a confirmed transaction: how it ended, who signed it, which accounts
/// it wrote to, and the memo that it holds.
pub fn extract_transaction_info(transaction: &ConfirmedTransaction, signature: &str) -> (processed:
    ProcessedTransaction)
    ensures
        processed.signature@ == signature@,
        processed.slot == Some(transaction.slot),
        processed.reads_meta(*transaction),
        processed.reads_message(*transaction),
{
    let mut processed = ProcessedTransaction {
        signature: signature.to_owned(),
        slot: Some(transaction.slot),
        block_time: None,
        from: String::new(),
        to: Vec::new(),
        program_id: None,
        success: false,
        logs: Vec::new(),
        encoding_type: String::new(),
        raw_data: None,
    };
    assert(texts_of(processed.logs@) =~= Seq::empty());
    match &transaction.meta {
        Some(meta) => {
            processed.success = meta.succeeded;
            match &meta.log_messages {
                Some(logs) => {
                    processed.logs = copy_texts(logs);
                },
                None => {},
            }
        },
        None => {},
    }
    match &transaction.transaction {
        Encoded::Json(parsed) => {
            processed.encoding_type = "Json".to_owned();
            match parsed {
                Some(message) => {
                    let keys = &message.account_keys;
                    let mut i: usize = 0;
                    let mut from: String = String::new();
                    let mut to: Vec<String> = Vec::new();
                    assert(keys@.take(0) =~= Seq::empty());
                    assert(texts_of(to@) =~= Seq::empty());
                    while i < keys.len()
                        invariant
                            i <= keys.len(),
                            from@ == last_signer(keys@.take(i as int)),
                            texts_of(to@) == written_accounts(keys@.take(i as int)),
                        decreases keys.len() - i,
                    {
                        let ghost before = texts_of(to@);
                        assert(keys@.take(i + 1).drop_last() =~= keys@.take(i as int));
                        assert(keys@.take(i + 1).last() == keys@[i as int]);
                        if keys[i].signer {
                            from = keys[i].pubkey.clone();
                        } else if keys[i].writable {
                            to.push(keys[i].pubkey.clone());
                            assert(texts_of(to@) =~= before.push(keys@[i as int].pubkey@));
                        }
                        i += 1;
                    }
                    assert(keys@.take(i as int) =~= keys@);
                    processed.from = from;
                    processed.to = to;
                    let instructions = &message.instructions;
                    if instructions.len() > 2 {
                        let mut k: usize = 0;
                        let mut found: Option<usize> = None;
                        assert(instructions@.take(0) =~= Seq::empty());
                        while k < instructions.len()
                            invariant
                                k <= instructions.len(),
                                match found {
                                    Some(at) => at == last_memo(instructions@.take(k as int)),
                                    None => last_memo(instructions@.take(k as int)) == -1,
                                },
                                last_memo(instructions@.take(k as int)) < k,
                            decreases instructions.len() - k,
                        {
                            assert(instructions@.take(k + 1).drop_last() =~= instructions@.take(
                                k as int,
                            ));
                            assert(instructions@.take(k + 1).last() == instructions@[k as int]);
                            if memo_instruction(&instructions[k]) {
                                found = Some(k);
                            }
                            k += 1;
                        }
                        assert(instructions@.take(k as int) =~= instructions@);
                        proof {
                            lemma_last_memo(instructions@);
                        }
                        match found {
                            Some(at) => {
                                match &instructions[at] {
                                    Some(memo) => {
                                        processed.program_id = Some(memo.program_id.clone());
                                        processed.slot = Some(transaction.slot);
                                        processed.block_time = transaction.block_time;
                                        processed.raw_data = Some(memo.parsed.clone());
                                    },
                                    None => {},
                                }
                            },
                            None => {},
                        }
                    }
                },
                None => {},
            }
        },
        Encoded::Other => {},
    }
    processed
}

/// The index of the last memo is an index of a memo, where there is one.
pub proof fn lemma_last_memo(instructions: Seq<Option<ParsedInstruction>>)
    ensures
        -1 <= last_memo(instructions) < instructions.len(),
        last_memo(instructions) >= 0 ==> is_memo(instructions[last_memo(instructions)]),
    decreases instructions.len(),
{
    if instructions.len() > 0 && !is_memo(instructions.last()) {
        lemma_last_memo(instructions.drop_last());
    }
}

/// The memo of a transaction that can be read: the transaction went through
/// and holds a memo.
pub fn raw_memo(transaction: &ProcessedTransaction) -> (outcome: Result<&Document, MemoError>)
    ensures
        match outcome {
            Ok(data) => transaction.success && transaction.raw_data == Some(*data),
            Err(MemoError::NotSuccessful) => !transaction.success,
            Err(MemoError::NoRawData) => transaction.success && transaction.raw_data is None,
            Err(MemoError::Invalid) => false,
        },
{
    if !transaction.success {
        return Err(MemoError::NotSuccessful);
    }
    match &transaction.raw_data {
        Some(data) => Ok(data),
        None => Err(MemoError::NoRawData),
    }
}

/// A memo is usable when its address, its title and its content are not
/// blank.
pub open spec fn usable(memo: TitleContent) -> bool {
    !blank(memo.uri@) && !blank(memo.title@) && !blank(memo.content@)
}

/// Hands a decoded memo on where it is usable.
pub fn check_memo(memo: TitleContent) -> (outcome: Result<TitleContent, MemoError>)
    ensures
        match outcome {
            Ok(checked) => usable(memo) && checked == memo,
            Err(e) => !usable(memo) && e == MemoError::Invalid,
        },
{
    if is_blank(memo.uri.as_str()) || is_blank(memo.title.as_str()) || is_blank(
        memo.content.as_str(),
    ) {
        Err(MemoError::Invalid)
    } else {
        Ok(memo)
    }
}

impl MemoError {
    /// What the error says.
    pub fn message(self) -> (text: &'static str)
        ensures
            text@ == match self {
                MemoError::NotSuccessful => "transcation success vale has false"@,
                MemoError::NoRawData => "raw_data has None"@,
                MemoError::Invalid => "Invalid chroniq data"@,
            },
    {
        match self {
            MemoError::NotSuccessful => "transcation success vale has false",
            MemoError::NoRawData => "raw_data has None",
            MemoError::Invalid => "Invalid chroniq data",
        }
    }
}

} // verus!
