use imagine_jobs::document::{Document, Number};
use imagine_jobs::solana::{
    check_memo, extract_transaction_info, get_random_point, raw_memo, AccountKey, ConfirmedTransaction, Encoded,
    MemoError, ParsedInstruction, ParsedMessage, ProcessedTransaction, TitleContent, TransactionMeta,
};

const MEMO: &str = "MemoSq4gqABAXKb96qnH8TysNcWxMyWCqXgDLGmfcHr";

fn text(s: &str) -> Document {
    Document::Text(s.to_string())
}

fn account(pubkey: &str, signer: bool, writable: bool) -> AccountKey {
    AccountKey { pubkey: pubkey.to_string(), signer, writable }
}

fn instruction(program: &str, program_id: &str, parsed: Document) -> Option<ParsedInstruction> {
    Some(ParsedInstruction { program: program.to_string(), program_id: program_id.to_string(), parsed })
}

fn transaction(message: Option<ParsedMessage>) -> ConfirmedTransaction {
    ConfirmedTransaction {
        slot: 77,
        block_time: Some(1700000000),
        meta: Some(TransactionMeta { succeeded: true, log_messages: Some(vec!["log a".to_string(), "log b".to_string()]) }),
        transaction: Encoded::Json(message),
    }
}

fn memo_message() -> ParsedMessage {
    ParsedMessage {
        account_keys: vec![
            account("payer", true, true),
            account("target-1", false, true),
            account("reader", false, false),
            account("target-2", false, true),
        ],
        instructions: vec![
            instruction("system", "11111111111111111111111111111111", Document::Null),
            None,
            instruction("spl-memo", MEMO, text("first memo")),
            instruction("spl-memo", MEMO, text("second memo")),
            instruction("spl-memo", "SomeOtherProgram", text("not the memo program")),
        ],
    }
}

fn processed(success: bool, raw_data: Option<Document>) -> ProcessedTransaction {
    ProcessedTransaction {
        signature: "sig".to_string(),
        slot: Some(1),
        block_time: None,
        program_id: None,
        success,
        logs: vec![],
        encoding_type: "Json".to_string(),
        raw_data,
        from: String::new(),
        to: vec![],
    }
}

fn memo(uri: &str, title: &str, content: &str) -> TitleContent {
    TitleContent { p: "CHRO".to_string(), uri: uri.to_string(), title: title.to_string(), content: content.to_string() }
}

#[test]
fn transaction_with_a_memo_is_read_in_full() {
    let out = extract_transaction_info(&transaction(Some(memo_message())), "sig-1");
    assert_eq!(
        out,
        ProcessedTransaction {
            signature: "sig-1".to_string(),
            slot: Some(77),
            block_time: Some(1700000000),
            program_id: Some(MEMO.to_string()),
            success: true,
            logs: vec!["log a".to_string(), "log b".to_string()],
            encoding_type: "Json".to_string(),
            raw_data: Some(text("second memo")),
            from: "payer".to_string(),
            to: vec!["target-1".to_string(), "target-2".to_string()],
        }
    );
}

#[test]
fn transaction_with_two_instructions_has_its_memo_passed_over() {
    let message = ParsedMessage {
        account_keys: vec![account("payer", true, false)],
        instructions: vec![instruction("spl-memo", MEMO, text("memo")), None],
    };
    let out = extract_transaction_info(&transaction(Some(message)), "sig-1");
    assert_eq!(out.raw_data, None);
    assert_eq!(out.program_id, None);
    assert_eq!(out.block_time, None);
    assert_eq!(out.slot, Some(77));
    assert_eq!(out.from, "payer");
    assert_eq!(out.to, Vec::<String>::new());
}

#[test]
fn transaction_without_a_memo_instruction_holds_none() {
    let message = ParsedMessage {
        account_keys: vec![],
        instructions: vec![
            instruction("system", "1", Document::Null),
            instruction("spl-memo", "other", text("x")),
            instruction("memo", MEMO, text("y")),
        ],
    };
    let out = extract_transaction_info(&transaction(Some(message)), "sig-1");
    assert_eq!(out.raw_data, None);
    assert_eq!(out.program_id, None);
    assert_eq!(out.block_time, None);
    assert_eq!(out.from, "");
}

#[test]
fn last_signer_is_the_sender() {
    let message = ParsedMessage {
        account_keys: vec![account("first", true, true), account("w", false, true), account("second", true, false)],
        instructions: vec![],
    };
    let out = extract_transaction_info(&transaction(Some(message)), "sig-1");
    assert_eq!(out.from, "second");
    assert_eq!(out.to, vec!["w".to_string()]);
}

#[test]
fn transaction_without_meta_did_not_succeed() {
    let mut confirmed = transaction(Some(memo_message()));
    confirmed.meta = None;
    let out = extract_transaction_info(&confirmed, "sig-1");
    assert!(!out.success);
    assert_eq!(out.logs, Vec::<String>::new());
    assert_eq!(out.raw_data, Some(text("second memo")));
    let mut failed = transaction(None);
    failed.meta = Some(TransactionMeta { succeeded: false, log_messages: None });
    let out = extract_transaction_info(&failed, "sig-2");
    assert!(!out.success);
    assert_eq!(out.logs, Vec::<String>::new());
}

#[test]
fn transaction_in_another_form_is_not_read() {
    let mut confirmed = transaction(None);
    let out = extract_transaction_info(&confirmed, "sig-1");
    assert_eq!(out.encoding_type, "Json");
    assert_eq!(out.from, "");
    assert_eq!(out.raw_data, None);
    confirmed.transaction = Encoded::Other;
    let out = extract_transaction_info(&confirmed, "sig-1");
    assert_eq!(out.encoding_type, "");
    assert_eq!(out.signature, "sig-1");
    assert_eq!(out.slot, Some(77));
    assert!(out.success);
    assert_eq!(out.to, Vec::<String>::new());
    assert_eq!(out.block_time, None);
}

#[test]
fn memo_is_read_from_a_successful_transaction_only() {
    let data = Document::Number(Number::PosInt(1));
    assert_eq!(raw_memo(&processed(true, Some(data.clone()))), Ok(&data));
    assert_eq!(raw_memo(&processed(false, Some(data.clone()))), Err(MemoError::NotSuccessful));
    assert_eq!(raw_memo(&processed(false, None)), Err(MemoError::NotSuccessful));
    assert_eq!(raw_memo(&processed(true, None)), Err(MemoError::NoRawData));
}

#[test]
fn memo_with_a_blank_field_is_invalid() {
    assert_eq!(check_memo(memo("ipfs://x", "title", "content")), Ok(memo("ipfs://x", "title", "content")));
    assert_eq!(check_memo(memo("", "title", "content")), Err(MemoError::Invalid));
    assert_eq!(check_memo(memo("ipfs://x", "  ", "content")), Err(MemoError::Invalid));
    assert_eq!(check_memo(memo("ipfs://x", "title", "\n")), Err(MemoError::Invalid));
    let other_tag = TitleContent { p: "OTHER".to_string(), ..memo("u", "t", "c") };
    assert!(check_memo(other_tag).is_ok());
}

#[test]
fn memo_errors_have_their_messages() {
    assert_eq!(MemoError::NotSuccessful.message(), "transcation success vale has false");
    assert_eq!(MemoError::NoRawData.message(), "raw_data has None");
    assert_eq!(MemoError::Invalid.message(), "Invalid chroniq data");
}

#[test]
fn random_point_is_one_of_the_points() {
    let points = vec!["a".to_string(), "b".to_string(), "c".to_string()];
    let mut seen = vec![false, false, false];
    for _ in 0..300 {
        let point = get_random_point(&points);
        let at = points.iter().position(|p| p == point).unwrap();
        seen[at] = true;
    }
    assert_eq!(seen, vec![true, true, true]);
    let one = vec!["only".to_string()];
    assert_eq!(get_random_point(&one), "only");
}

#[test]
fn processed_transaction_clone_is_equal() {
    let out = extract_transaction_info(&transaction(Some(memo_message())), "sig-1");
    assert_eq!(out.clone(), out);
    let bare = processed(false, None);
    assert_eq!(bare.clone(), bare);
}
