use mdfmt::chunk::{Chunk, ChunkPrinter};

#[test]
fn printer_empty() {
    let printer = ChunkPrinter::new();
    assert_eq!(printer.print(), "");
}

#[test]
fn sigle_and_double() {
    let mut printer = ChunkPrinter::new();
    printer.push(Chunk::Single("a".to_string()));
    printer.push(Chunk::Double("b".to_string()));
    printer.push(Chunk::Single("c".to_string()));
    printer.push(Chunk::Double("d".to_string()));
    assert_eq!(printer.print(), "a\nb\n\nc\nd");
}
