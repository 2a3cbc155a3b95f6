use ethercat_master::command::{Command, SlaveAddress};
use ethercat_master::error::EcError;
use ethercat_master::frame::CommandType;
use ethercat_master::socket::{CommandData, Cyclic, EtherCatSystemTime};
use ethercat_master::tasks::mailbox::{MailboxTask, MailboxTaskError};
use ethercat_master::tasks::mailbox_reader::{MailboxReader, SyncManager};
use ethercat_master::tasks::mailbox_writer::MailboxWriter;

const SLAVE: SlaveAddress = SlaveAddress::StationAddress(0x1001);

fn sm(number: u8) -> SyncManager {
    SyncManager { number, start_address: 0x1080, size: 8 }
}

fn reply<'a>(command: Command, data: &'a [u8], wkc: u16) -> CommandData<'a> {
    let mut d = CommandData::new(command, data);
    d.wkc = wkc;
    d
}

#[test]
fn reader_reads_a_full_mailbox() {
    let mut reader = MailboxReader::new(vec![0u8; 16]);
    reader.start(SLAVE, sm(1), false);
    let mut buf = vec![0xffu8; 16];
    let (c, n) = reader.next_command(&mut buf).unwrap();
    assert_eq!(c, Command::new(CommandType::FPRD, 0x1001, 0x0805 + 8));
    assert_eq!(n, 2);
    assert_eq!(&buf[..2], &[0u8, 0]);
    // status: mailbox full; activation byte 0x01
    reader.recieve_and_process(Some(&reply(c, &[0x08, 0x01], 1)), EtherCatSystemTime(10));
    assert!(reader.wait().is_none());
    let (c, n) = reader.next_command(&mut buf).unwrap();
    assert_eq!(c, Command::new(CommandType::FPRD, 0x1001, 0x1080));
    assert_eq!(n, 8);
    // a CoE mailbox: header with type 3, then two data bytes
    let mailbox = [2u8, 0, 0, 0, 0, 0x03, 0xaa, 0xbb];
    reader.recieve_and_process(Some(&reply(c, &mailbox, 1)), EtherCatSystemTime(20));
    assert!(matches!(reader.wait(), Some(Ok(()))));
    assert!(reader.is_finished());
    assert_eq!(reader.mailbox_header().0, vec![2u8, 0, 0, 0, 0, 0x03]);
    assert_eq!(&reader.mailbox_data()[..2], &[0xaau8, 0xbb]);
    let buf = reader.take_buffer();
    assert_eq!(buf.len(), 16);
}

#[test]
fn reader_reports_a_mailbox_error_reply() {
    let mut reader = MailboxReader::new(vec![0u8; 8]);
    reader.start(SLAVE, sm(0), true);
    let mut buf = vec![0u8; 8];
    let (c, _) = reader.next_command(&mut buf).unwrap();
    reader.recieve_and_process(Some(&reply(c, &[0x08, 0], 1)), EtherCatSystemTime(0));
    let (c, _) = reader.next_command(&mut buf).unwrap();
    let mailbox = [4u8, 0, 0, 0, 0, 0x00, 0x01, 0x00];
    reader.recieve_and_process(Some(&reply(c, &mailbox, 1)), EtherCatSystemTime(0));
    match reader.wait() {
        Some(Err(EcError::TaskSpecific(MailboxTaskError::ErrorResponse(frame)))) => {
            assert_eq!(frame.0, [4u8, 0, 0, 0]);
        }
        other => panic!("unexpected {:?}", other),
    }
}

#[test]
fn reader_asks_for_a_repeat_of_a_lost_read() {
    let mut reader = MailboxReader::new(vec![0u8; 8]);
    reader.start(SLAVE, sm(1), false);
    let mut buf = vec![0u8; 8];
    let (c, _) = reader.next_command(&mut buf).unwrap();
    reader.recieve_and_process(Some(&reply(c, &[0x08, 0x01], 1)), EtherCatSystemTime(0));
    let (c, _) = reader.next_command(&mut buf).unwrap();
    // the read got no working counter: ask for a repeat
    reader.recieve_and_process(Some(&reply(c, &[0u8; 8], 0)), EtherCatSystemTime(0));
    let (c, n) = reader.next_command(&mut buf).unwrap();
    assert_eq!(c, Command::new(CommandType::FPWR, 0x1001, 0x0806 + 8));
    assert_eq!(n, 1);
    // the repeat request bit is turned over
    assert_eq!(buf[0], 0x03);
    reader.recieve_and_process(Some(&reply(c, &buf[..1], 1)), EtherCatSystemTime(0));
    let (c, n) = reader.next_command(&mut buf).unwrap();
    assert_eq!(c, Command::new(CommandType::FPRD, 0x1001, 0x0807 + 8));
    assert_eq!(n, 1);
    // not acknowledged yet: ask again
    reader.recieve_and_process(Some(&reply(c, &[0x00], 1)), EtherCatSystemTime(0));
    let (c2, _) = reader.next_command(&mut buf).unwrap();
    assert_eq!(c2, c);
    // acknowledged: back to checking the mailbox
    reader.recieve_and_process(Some(&reply(c, &[0x02], 1)), EtherCatSystemTime(0));
    let (c, _) = reader.next_command(&mut buf).unwrap();
    assert_eq!(c, Command::new(CommandType::FPRD, 0x1001, 0x0805 + 8));
}

#[test]
fn reader_fails_on_an_empty_mailbox_unless_waiting() {
    let mut reader = MailboxReader::new(vec![0u8; 8]);
    reader.start(SLAVE, sm(0), false);
    let mut buf = vec![0u8; 8];
    let (c, _) = reader.next_command(&mut buf).unwrap();
    reader.recieve_and_process(Some(&reply(c, &[0x00, 0], 1)), EtherCatSystemTime(0));
    assert!(matches!(
        reader.wait(),
        Some(Err(EcError::TaskSpecific(MailboxTaskError::MailboxEmpty)))
    ));
    assert!(reader.next_command(&mut buf).is_none());

    let mut waiting = MailboxReader::new(vec![0u8; 8]);
    waiting.start(SLAVE, sm(0), true);
    let (c, _) = waiting.next_command(&mut buf).unwrap();
    waiting.recieve_and_process(Some(&reply(c, &[0x00, 0], 1)), EtherCatSystemTime(1_000));
    assert!(waiting.wait().is_none());
    // more than two seconds after the first check
    waiting.recieve_and_process(Some(&reply(c, &[0x00, 0], 1)), EtherCatSystemTime(2_000_001_001));
    assert!(matches!(
        waiting.wait(),
        Some(Err(EcError::TaskSpecific(MailboxTaskError::Timeout)))
    ));
}

#[test]
fn reader_with_a_small_buffer_fails_to_read() {
    let mut reader = MailboxReader::new(vec![0u8; 6]);
    reader.start(SLAVE, sm(0), false);
    let mut buf = vec![0u8; 8];
    let (c, _) = reader.next_command(&mut buf).unwrap();
    reader.recieve_and_process(Some(&reply(c, &[0x08, 0], 1)), EtherCatSystemTime(0));
    assert!(reader.next_command(&mut buf).is_none());
    assert!(matches!(
        reader.wait(),
        Some(Err(EcError::TaskSpecific(MailboxTaskError::BufferSmall)))
    ));
}

#[test]
fn reader_rejects_a_reply_to_another_register() {
    let mut reader = MailboxReader::new(vec![0u8; 8]);
    reader.start(SLAVE, sm(0), false);
    let mut buf = vec![0u8; 8];
    let _ = reader.next_command(&mut buf).unwrap();
    let other = Command::new(CommandType::FPRD, 0x1001, 0x0130);
    reader.recieve_and_process(Some(&reply(other, &[0x08, 0], 1)), EtherCatSystemTime(0));
    assert!(matches!(reader.wait(), Some(Err(EcError::UnexpectedCommand))));
}

#[test]
fn writer_writes_into_an_empty_mailbox() {
    let mut mailbox = vec![0u8; 10];
    mailbox[0] = 4;
    mailbox[5] = 0x03;
    mailbox[6] = 0x11;
    let mut writer = MailboxWriter::new(mailbox);
    writer.start(SLAVE, SyncManager { number: 0, start_address: 0x1000, size: 8 }, false);
    let mut buf = vec![0u8; 10];
    let (c, n) = writer.next_command(&mut buf).unwrap();
    assert_eq!(c, Command::new(CommandType::FPRD, 0x1001, 0x0805));
    assert_eq!(n, 2);
    writer.recieve_and_process(Some(&reply(c, &[0x00, 0x01], 1)), EtherCatSystemTime(5));
    let (c, n) = writer.next_command(&mut buf).unwrap();
    assert_eq!(c, Command::new(CommandType::FPWR, 0x1001, 0x1000));
    assert_eq!(n, 8);
    assert_eq!(&buf[..8], &[4u8, 0, 0, 0, 0, 0x03, 0x11, 0]);
    // not taken: written again
    writer.recieve_and_process(Some(&reply(c, &buf[..8], 0)), EtherCatSystemTime(6));
    assert!(writer.wait().is_none());
    writer.recieve_and_process(Some(&reply(c, &buf[..8], 1)), EtherCatSystemTime(7));
    assert!(matches!(writer.wait(), Some(Ok(()))));
    assert_eq!(writer.mailbox_header().0, vec![4u8, 0, 0, 0, 0, 0x03]);
}

#[test]
fn writer_fails_on_a_full_mailbox_unless_waiting() {
    let mut writer = MailboxWriter::new(vec![0u8; 8]);
    writer.start(SLAVE, sm(0), false);
    let mut buf = vec![0u8; 8];
    let (c, _) = writer.next_command(&mut buf).unwrap();
    writer.recieve_and_process(Some(&reply(c, &[0x08, 0], 1)), EtherCatSystemTime(0));
    assert!(matches!(
        writer.wait(),
        Some(Err(EcError::TaskSpecific(MailboxTaskError::MailboxFull)))
    ));

    let mut waiting = MailboxWriter::new(vec![0u8; 8]);
    waiting.start(SLAVE, sm(0), true);
    let (c, _) = waiting.next_command(&mut buf).unwrap();
    waiting.recieve_and_process(Some(&reply(c, &[0x08, 0], 1)), EtherCatSystemTime(1));
    assert!(waiting.wait().is_none());
    // a hundred milliseconds later the mailbox is still full
    waiting.recieve_and_process(Some(&reply(c, &[0x08, 0], 1)), EtherCatSystemTime(100_000_002));
    assert!(matches!(
        waiting.wait(),
        Some(Err(EcError::TaskSpecific(MailboxTaskError::Timeout)))
    ));
}

#[test]
fn writer_with_a_small_buffer_fails_to_write() {
    let mut writer = MailboxWriter::new(vec![0u8; 6]);
    writer.start(SLAVE, sm(0), false);
    let mut buf = vec![0u8; 8];
    let (c, _) = writer.next_command(&mut buf).unwrap();
    writer.recieve_and_process(Some(&reply(c, &[0x00, 0], 1)), EtherCatSystemTime(0));
    assert!(writer.next_command(&mut buf).is_none());
    assert!(matches!(
        writer.wait(),
        Some(Err(EcError::TaskSpecific(MailboxTaskError::BufferSmall)))
    ));
}

#[test]
fn mailbox_task_writes_then_reads_over_one_buffer() {
    let mut task = MailboxTask::new(vec![0u8; 8]);
    let mut buf = vec![0u8; 8];
    assert!(task.wait().is_none());
    assert!(task.next_command(&mut buf).is_none());

    task.start_to_write(SLAVE, sm(0), false);
    let (c, _) = task.next_command(&mut buf).unwrap();
    task.recieve_and_process(Some(&reply(c, &[0x00, 0], 1)), EtherCatSystemTime(0));
    let (c, _) = task.next_command(&mut buf).unwrap();
    task.recieve_and_process(Some(&reply(c, &buf[..8], 1)), EtherCatSystemTime(0));
    assert!(matches!(task.wait(), Some(Ok(()))));
    assert!(task.is_finished());

    task.start_to_read(SLAVE, sm(1), false);
    assert!(task.wait().is_none());
    let (c, _) = task.next_command(&mut buf).unwrap();
    task.recieve_and_process(Some(&reply(c, &[0x08, 0], 1)), EtherCatSystemTime(0));
    let (c, _) = task.next_command(&mut buf).unwrap();
    let mailbox = [2u8, 0, 0, 0, 0, 0x03, 7, 9];
    task.recieve_and_process(Some(&reply(c, &mailbox, 1)), EtherCatSystemTime(0));
    assert!(matches!(task.wait(), Some(Ok(()))));
    assert_eq!(task.mailbox_data(), &[7u8, 9]);
    assert_eq!(task.take_buffer(), mailbox.to_vec());
}
