use flash_rover::write_job::{
    check_input_length, FlashEvent, FlashRequest, WriteError, WriteJob, WritePhase,
};
use flash_rover::write_plan::{write_plan, WritePlan};

const SECTOR: u32 = 4096;

/// A flash that erases to 0xff and whose reads see what was written.
struct SimFlash {
    mem: Vec<u8>,
    /// Bit flips applied to every read-back after a reset.
    corrupt_after_reset: bool,
    resets: usize,
    log: Vec<String>,
}

impl SimFlash {
    fn new(size: usize) -> Self {
        let mem = (0..size).map(|i| (i % 251) as u8).collect();
        SimFlash { mem, corrupt_after_reset: false, resets: 0, log: Vec::new() }
    }

    fn serve(&mut self, request: &FlashRequest) -> Option<FlashEvent> {
        match request {
            FlashRequest::ReadData { address, length } => {
                self.log.push(format!("read {} {}", address, length));
                let a = *address as usize;
                let mut d = self.mem[a..a + *length as usize].to_vec();
                if self.corrupt_after_reset && self.resets > 0 && !d.is_empty() {
                    d[0] ^= 1;
                }
                Some(FlashEvent::Data(d))
            }
            FlashRequest::SectorErase { address, length } => {
                self.log.push(format!("erase {} {}", address, length));
                let a = *address as usize;
                for b in &mut self.mem[a..a + *length as usize] {
                    *b = 0xff;
                }
                Some(FlashEvent::Completed)
            }
            FlashRequest::WriteData { address, data } => {
                self.log.push(format!("write {} {}", address, data.len()));
                let a = *address as usize;
                self.mem[a..a + data.len()].copy_from_slice(data);
                Some(FlashEvent::Completed)
            }
            FlashRequest::ResetIntoFirmware => {
                self.log.push("reset".to_string());
                self.resets += 1;
                Some(FlashEvent::Completed)
            }
            FlashRequest::Done | FlashRequest::Failed(_) | FlashRequest::Aborted => None,
        }
    }
}

fn run(flash: &mut SimFlash, mut job: WriteJob) -> Result<(), WriteError> {
    let mut request = job.start();
    loop {
        match flash.serve(&request) {
            Some(event) => request = job.next(event),
            None => break,
        }
    }
    assert_eq!(job.phase(), WritePhase::Finished);
    match request {
        FlashRequest::Done => Ok(()),
        FlashRequest::Failed(e) => Err(e),
        _ => unreachable!(),
    }
}

#[test]
fn plan_inside_one_sector() {
    assert_eq!(
        write_plan(100, 24, SECTOR),
        WritePlan { first_address: 0, first_length: 100, last_address: 124, last_length: 3972 }
    );
}

#[test]
fn plan_on_sector_boundaries() {
    assert_eq!(
        write_plan(4096, 8192, SECTOR),
        WritePlan { first_address: 4096, first_length: 0, last_address: 12288, last_length: 0 }
    );
}

#[test]
fn plan_across_sectors() {
    assert_eq!(
        write_plan(5000, 4000, SECTOR),
        WritePlan { first_address: 4096, first_length: 904, last_address: 9000, last_length: 3288 }
    );
    let p = write_plan(5000, 4000, SECTOR);
    assert_eq!(p.first_address % SECTOR, 0);
    assert_eq!((p.last_address + p.last_length) % SECTOR, 0);
}

#[test]
fn sector_write_keeps_neighbours() {
    let mut flash = SimFlash::new(4 * SECTOR as usize);
    let before = flash.mem.clone();
    let input: Vec<u8> = (0..4000u32).map(|i| (i * 7 % 256) as u8).collect();
    let job = WriteJob::new(true, false, 5000, input.clone(), SECTOR);
    assert_eq!(run(&mut flash, job), Ok(()));
    let mut expected = before;
    expected[5000..9000].copy_from_slice(&input);
    assert_eq!(flash.mem, expected);
    assert_eq!(
        flash.log,
        vec![
            "read 4096 904",
            "read 9000 3288",
            "erase 4096 8192",
            "write 4096 8192",
            "reset",
            "read 4096 8192",
        ]
    );
}

#[test]
fn sector_write_without_verify_stops_after_writing() {
    let mut flash = SimFlash::new(2 * SECTOR as usize);
    let job = WriteJob::new(false, false, 100, b"Powered by flash-rover!\n".to_vec(), SECTOR);
    assert_eq!(run(&mut flash, job), Ok(()));
    assert_eq!(&flash.mem[100..124], b"Powered by flash-rover!\n");
    assert_eq!(flash.log, vec!["read 0 100", "read 124 3972", "erase 0 4096", "write 0 4096"]);
}

#[test]
fn in_place_write() {
    let mut flash = SimFlash::new(SECTOR as usize);
    let job = WriteJob::new(true, true, 10, vec![1, 2, 3], SECTOR);
    assert_eq!(run(&mut flash, job), Ok(()));
    assert_eq!(&flash.mem[10..13], &[1, 2, 3]);
    assert_eq!(flash.log, vec!["write 10 3", "reset", "read 10 3"]);
}

#[test]
fn verification_failure_is_reported() {
    let mut flash = SimFlash::new(SECTOR as usize);
    flash.corrupt_after_reset = true;
    let job = WriteJob::new(true, true, 0, vec![9, 9], SECTOR);
    assert_eq!(run(&mut flash, job), Err(WriteError::VerificationFailed));

    let mut flash = SimFlash::new(2 * SECTOR as usize);
    flash.corrupt_after_reset = true;
    let job = WriteJob::new(true, false, 7, vec![5; 10], SECTOR);
    assert_eq!(run(&mut flash, job), Err(WriteError::VerificationFailed));
}

#[test]
fn empty_input_on_boundary() {
    let mut flash = SimFlash::new(SECTOR as usize);
    let job = WriteJob::new(false, false, 0, Vec::new(), SECTOR);
    assert_eq!(run(&mut flash, job), Ok(()));
    assert_eq!(flash.log, vec!["read 0 0", "read 0 0", "erase 0 0", "write 0 0"]);
}

#[test]
fn input_length_check() {
    assert_eq!(check_input_length(10, 10), Ok(()));
    assert_eq!(check_input_length(0, 10), Err(WriteError::InvalidInputLength));
}

#[test]
fn device_failure_ends_the_job() {
    let mut job = WriteJob::new(true, false, 5000, vec![1, 2, 3], SECTOR);
    match job.start() {
        FlashRequest::ReadData { address: 4096, length: 904 } => {}
        other => panic!("unexpected request {:?}", other),
    }
    assert!(matches!(job.next(FlashEvent::DeviceFailed), FlashRequest::Aborted));
    assert_eq!(job.phase(), WritePhase::Finished);
}
