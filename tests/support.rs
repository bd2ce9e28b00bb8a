use paintbrush::core_arg::{CoreArg, CoreArgError, Stats};
use paintbrush::errchain::{Error, ErrorChain, ErrorChainResult, Message, NumericalError};
use paintbrush::rangeset::InclusiveRange;
use paintbrush::stackvec::{StackVec, StackVecError};
use paintbrush::uefi::{CpuPhysicalLocation, ProcessorInformation};

#[test]
fn stackvec_fills_up() {
    let mut v: StackVec<u32, 2> = StackVec::new();
    assert_eq!(v._len(), 0);
    assert_eq!(v.push(1), Ok(()));
    assert_eq!(v.push(2), Ok(()));
    assert_eq!(v.push(3), Err(StackVecError::Full));
    assert_eq!(v.data(), vec![Some(1), Some(2)]);
    assert_eq!(v._len(), 2);
}

#[test]
fn core_arg_memory() {
    let mut arg = CoreArg::new();
    assert_eq!(arg.core, None);
    arg.set_core(3);
    arg.set_alive_address(0x7000);
    assert_eq!(arg.core, Some(3));
    assert_eq!(arg.alive_address, Some(0x7000));
    assert_eq!(arg.insert_memory(0x4000_0000, 0x4000_0000), Ok(()));
    assert_eq!(arg.memory.ranges(), vec![InclusiveRange { start: 0x4000_0000, end: 0x7fff_ffff }]);
    assert_eq!(
        arg.insert_memory(1, 0),
        Err(CoreArgError::Numerical(NumericalError::SubUnderflow))
    );
    assert_eq!(
        arg.insert_memory(u64::MAX, 2),
        Err(CoreArgError::Numerical(NumericalError::AddOverflow))
    );
    arg.reset();
    assert_eq!(arg.core, None);
    assert_eq!(arg.memory.len(), 0);
    assert_eq!(arg.alive_address, Some(0x7000));
    assert_eq!(Stats::new().start_time, 0);
}

#[test]
fn error_chain_frames() {
    let chain = ErrorChain::new_with_debug("src/main.rs", 42, Error::Text("boom"));
    assert_eq!(chain.chain_len, 1);
    assert_eq!(chain.max_padding, 13);
    let first = chain.first().unwrap();
    assert_eq!(first.file, "src/main.rs");
    assert_eq!(first.line, 42);
    let same = chain.from_error("src/main.rs", 42);
    assert_eq!(same.chain_len, 1);
    let longer = same.from_error("src/boot/loader.rs", 1234);
    assert_eq!(longer.chain_len, 2);
    assert_eq!(longer.max_padding, 22);
    assert_eq!(longer.last().unwrap().line, 1234);
    assert!(matches!(longer.last().unwrap().error, Error::Continue));
    let mut full = longer;
    for i in 0..10 {
        full = full.extend_chain("a.rs", i, Error::Continue);
    }
    assert_eq!(full.chain_len, 8);
    let empty = Message::empty();
    assert_eq!(empty.line, 0);
    assert_eq!(empty.file, "");
}

#[test]
fn error_chain_result() {
    let ok: ErrorChainResult<u32> = ErrorChainResult::Success(5);
    assert_eq!(ok.expect("value"), 5);
    let chain = ErrorChain::new_with_debug("x.rs", 1, Error::Continue);
    let failed: ErrorChainResult<u32> = ErrorChainResult::Failure(chain);
    match failed.context("y.rs", 2, Error::Text("while loading")) {
        ErrorChainResult::Failure(c) => assert_eq!(c.chain_len, 2),
        ErrorChainResult::Success(_) => panic!("expected a failure"),
    }
}

#[test]
fn processor_status_flags() {
    let location = CpuPhysicalLocation { package: 0, core: 1, thread: 0 };
    let info = ProcessorInformation { proc_id: 2, status_flag: 0b110, location };
    assert!(!info._is_bsp());
    assert!(info._is_enabled());
    assert!(info._is_healthy());
}

#[test]
fn console_text_is_chunked_with_carriage_returns() {
    let units: Vec<u16> = "a\nb".encode_utf16().collect();
    assert_eq!(paintbrush::uefi::console_chunks(&units), vec![vec![97, 13, 10, 98, 0]]);
    let long = vec![120u16; 300];
    let chunks = paintbrush::uefi::console_chunks(&long);
    assert_eq!(chunks.len(), 3);
    assert_eq!(chunks[0].len(), 129);
    assert_eq!(chunks[2].len(), 45);
    assert!(paintbrush::uefi::console_chunks(&[]).is_empty());
}

#[test]
fn error_chain_padding_aligns_messages() {
    let chain = ErrorChain::new_with_debug("src/main.rs", 42, Error::Continue)
        .extend_chain("src/boot/loader.rs", 1234, Error::Continue);
    assert_eq!(chain.padding(0), 22 - 11 - 2 + 1);
    assert_eq!(chain.padding(1), 1);
}
