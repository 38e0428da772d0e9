//! The assembler: labelled blocks are collected from source, laid out in
//! memory from the program base on, and emitted as bytes with every
//! symbolic jump resolved against the layout.
pub mod parser;
pub mod forms;

use vstd::prelude::*;
use vstd::string::*;
use crate::text::{chars_of, same_word, same_chars};
use crate::assembler::parser::{Parser, Expression, Node, ParseError, State, pull, item};
use crate::utils::token::Kind;

verus! {

/// A labelled block: its name, its content type and its items in source order.
#[derive(Debug)]
pub struct Label {
    pub name: String,
    pub subtype: String,
    pub codes: Vec<Expression>,
}

/// A labelled block as plain values.
pub struct Block {
    pub name: Seq<char>,
    pub subtype: Seq<char>,
    pub codes: Seq<Node>,
}

/// The items of a block as plain values.
pub open spec fn nodes(codes: Seq<Expression>) -> Seq<Node> {
    Seq::new(codes.len(), |i: int| codes[i]@)
}

impl View for Label {
    type V = Block;

    open spec fn view(&self) -> Block {
        Block { name: self.name@, subtype: self.subtype@, codes: nodes(self.codes@) }
    }
}

/// One line of the address table: a label and where it stands in memory.
pub struct Entry {
    pub name: Seq<char>,
    pub at: u16,
}

/// The address table as plain values.
pub open spec fn entries(table: Seq<(String, u16)>) -> Seq<Entry> {
    Seq::new(table.len(), |i: int| Entry { name: table[i].0@, at: table[i].1 })
}

/// The place of the first block from `from` on that is named `name`, or
/// the number of blocks if there is none.
pub open spec fn first_named(blocks: Seq<Block>, name: Seq<char>, from: int) -> int
    decreases blocks.len() - from,
{
    if from < 0 || from >= blocks.len() {
        blocks.len() as int
    } else if blocks[from].name == name {
        from
    } else {
        first_named(blocks, name, from + 1)
    }
}

/// `blocks` with `block` in the place of the block of the same name, or
/// at the end if there is none of that name.
pub open spec fn put(blocks: Seq<Block>, block: Block) -> Seq<Block> {
    let at = first_named(blocks, block.name, 0);
    if at < blocks.len() { blocks.update(at, block) } else { blocks.push(block) }
}

/// What the assembler holds while it reads source: the blocks that are
/// complete, the label that is open with the items read under it, and the
/// errors met.
pub struct Draft {
    pub blocks: Seq<Block>,
    pub open: Option<(Seq<char>, Seq<char>)>,
    pub codes: Seq<Node>,
    pub errors: Seq<ParseError>,
}

/// Closes the open label: with items under it, it becomes a block; with
/// none, it is dropped.
pub open spec fn close(d: Draft) -> Draft {
    match d.open {
        Some((name, subtype)) if d.codes.len() > 0 => Draft {
            blocks: put(d.blocks, Block { name, subtype, codes: d.codes }),
            codes: Seq::empty(),
            ..d
        },
        _ => d,
    }
}

/// Whether an item belongs under a label of content type `subtype`:
/// instructions under `commands`, sprite data under `sprite`.
pub open spec fn belongs(node: Node, subtype: Seq<char>) -> bool {
    match node {
        Node::Opcode(_) => same_word(subtype, "commands"@),
        Node::Jump { .. } => same_word(subtype, "commands"@),
        Node::Sprite(_) => same_word(subtype, "sprite"@),
        _ => false,
    }
}

/// Takes one item into the draft. A declaration closes the open label and
/// opens its own; any other item is kept if it belongs under the open label.
pub open spec fn accept(d: Draft, node: Node) -> Draft {
    match node {
        Node::Subroutine { subtype, name } => Draft { open: Some((name, subtype)), ..close(d) },
        _ => match d.open {
            Some((name, subtype)) if belongs(node, subtype) => Draft { codes: d.codes.push(node), ..d },
            _ => d,
        },
    }
}

/// The open label as plain values.
pub open spec fn open_of(sub: Option<(String, String)>) -> Option<(Seq<char>, Seq<char>)> {
    match sub {
        Some(pair) => Some((pair.0@, pair.1@)),
        None => None,
    }
}

pub open spec fn with_error(d: Draft, error: ParseError) -> Draft {
    Draft { errors: d.errors.push(error), ..d }
}

/// Reads source from the parser state `s` to its end. A semicolon between
/// items ends a line and is passed over. An error is noted and reading
/// goes on behind it.
pub open spec fn collect(data: Seq<char>, s: State, d: Draft) -> Draft
    decreases data.len() - s.cursor.index,
{
    let pulled = pull(data, s);
    match pulled.result {
        Err(error) => if s.cursor.index < pulled.state.cursor.index <= data.len() {
            collect(data, pulled.state, with_error(d, error))
        } else {
            close(with_error(d, error))
        },
        Ok(more) => if !more {
            close(d)
        } else if pulled.state.current == Kind::SemiColon {
            if s.cursor.index < pulled.state.cursor.index <= data.len() {
                collect(data, pulled.state, d)
            } else {
                close(d)
            }
        } else {
            let parsed = item(data, pulled.state);
            let next = match parsed.result {
                Ok(node) => accept(d, node),
                Err(error) => with_error(d, error),
            };
            if s.cursor.index < parsed.state.cursor.index <= data.len() {
                collect(data, parsed.state, next)
            } else {
                close(next)
            }
        },
    }
}

/// `a + b` reduced to sixteen bits.
pub open spec fn wrap(a: int, b: int) -> u16 {
    ((a + b) % 0x10000) as u16
}

/// The number of sprite bytes among the first `upto` items.
pub open spec fn sprite_size(codes: Seq<Node>, upto: int) -> int
    decreases upto,
{
    if upto <= 0 {
        0
    } else {
        sprite_size(codes, upto - 1) + match codes[upto - 1] {
            Node::Sprite(data) => data.len() as int,
            _ => 0,
        }
    }
}

/// The room that a block takes in the layout: two bytes for each item
/// under `commands`, the sprite bytes under `sprite`, nothing otherwise.
pub open spec fn size_of(block: Block) -> int {
    if same_word(block.subtype, "sprite"@) {
        sprite_size(block.codes, block.codes.len() as int)
    } else if same_word(block.subtype, "commands"@) {
        2 * (block.codes.len() as int)
    } else {
        0
    }
}

/// Whether a block is laid out as `start`: its name is `start` in any case.
pub open spec fn is_start(name: Seq<char>) -> bool {
    same_word(name, "start"@)
}

/// The first free address after the first `upto` blocks are laid out.
/// `start` comes first, at the program base, whatever its place among the
/// blocks; every other block follows in the order of the blocks.
pub open spec fn free_after(blocks: Seq<Block>, upto: int) -> u16
    decreases upto,
{
    if upto <= 0 {
        wrap(0x200, 2 * (blocks[first_named(blocks, "start"@, 0)].codes.len() as int))
    } else if is_start(blocks[upto - 1].name) {
        free_after(blocks, upto - 1)
    } else {
        wrap(free_after(blocks, upto - 1) as int, size_of(blocks[upto - 1]))
    }
}

/// The address table after the first `upto` blocks are laid out.
pub open spec fn table_after(blocks: Seq<Block>, upto: int) -> Seq<Entry>
    decreases upto,
{
    if upto <= 0 {
        seq![Entry { name: "start"@, at: 0x200 }]
    } else if is_start(blocks[upto - 1].name) {
        table_after(blocks, upto - 1)
    } else {
        table_after(blocks, upto - 1).push(
            Entry { name: blocks[upto - 1].name, at: free_after(blocks, upto - 1) },
        )
    }
}

/// The address table of all blocks.
pub open spec fn table_of(blocks: Seq<Block>) -> Seq<Entry> {
    table_after(blocks, blocks.len() as int)
}

/// The two bytes of a word, high byte first.
pub open spec fn word_bytes(word: u16) -> Seq<u8> {
    seq![(word / 256) as u8, (word % 256) as u8]
}

/// The bytes of a symbolic jump against the first `upto` lines of the
/// table: one word for every line whose name is the target's, in any case;
/// nothing where no line is.
pub open spec fn jump_bytes(nemode: u16, target: Seq<char>, table: Seq<Entry>, upto: int) -> Seq<u8>
    decreases upto,
{
    if upto <= 0 {
        Seq::empty()
    } else {
        jump_bytes(nemode, target, table, upto - 1) + (if same_word(table[upto - 1].name, target) {
            word_bytes(nemode | table[upto - 1].at)
        } else {
            Seq::empty()
        })
    }
}

/// Sprite data as bytes, each value cut to eight bits.
pub open spec fn sprite_bytes(data: Seq<u16>) -> Seq<u8> {
    Seq::new(data.len(), |i: int| (data[i] % 256) as u8)
}

/// The bytes of one item.
pub open spec fn node_bytes(node: Node, table: Seq<Entry>) -> Seq<u8> {
    match node {
        Node::Opcode(code) => word_bytes(code),
        Node::Jump { nemode, address } => jump_bytes(nemode, address, table, table.len() as int),
        Node::Sprite(data) => sprite_bytes(data),
        _ => Seq::empty(),
    }
}

/// The bytes of the first `upto` items of a block.
pub open spec fn block_bytes(codes: Seq<Node>, table: Seq<Entry>, upto: int) -> Seq<u8>
    decreases upto,
{
    if upto <= 0 {
        Seq::empty()
    } else {
        block_bytes(codes, table, upto - 1) + node_bytes(codes[upto - 1], table)
    }
}

/// The bytes of the first `upto` blocks, those laid out as `start` left out.
pub open spec fn rest_bytes(blocks: Seq<Block>, table: Seq<Entry>, upto: int) -> Seq<u8>
    decreases upto,
{
    if upto <= 0 {
        Seq::empty()
    } else {
        rest_bytes(blocks, table, upto - 1) + (if is_start(blocks[upto - 1].name) {
            Seq::empty()
        } else {
            block_bytes(blocks[upto - 1].codes, table, blocks[upto - 1].codes.len() as int)
        })
    }
}

/// Whether there is a block named `start`.
pub open spec fn has_start(blocks: Seq<Block>) -> bool {
    first_named(blocks, "start"@, 0) < blocks.len()
}

/// The program: the block `start`, then every other block in the order of
/// the layout.
pub open spec fn program(blocks: Seq<Block>) -> Seq<u8> {
    let start = blocks[first_named(blocks, "start"@, 0)];
    block_bytes(start.codes, table_of(blocks), start.codes.len() as int) + rest_bytes(
        blocks,
        table_of(blocks),
        blocks.len() as int,
    )
}

/// Whether one of the first `upto` lines of the table is named `target`, in any case.
pub open spec fn listed(target: Seq<char>, table: Seq<Entry>, upto: int) -> bool
    decreases upto,
{
    if upto <= 0 {
        false
    } else {
        listed(target, table, upto - 1) || same_word(table[upto - 1].name, target)
    }
}

/// Whether an item needs no label that the table lacks.
pub open spec fn resolved(node: Node, table: Seq<Entry>) -> bool {
    match node {
        Node::Jump { nemode, address } => listed(address, table, table.len() as int),
        _ => true,
    }
}

/// Whether the first `upto` items of a block are resolved.
pub open spec fn items_resolved(codes: Seq<Node>, table: Seq<Entry>, upto: int) -> bool
    decreases upto,
{
    if upto <= 0 {
        true
    } else {
        items_resolved(codes, table, upto - 1) && resolved(codes[upto - 1], table)
    }
}

/// Whether every symbolic jump in the first `upto` blocks names a label of the table.
pub open spec fn blocks_resolved(blocks: Seq<Block>, table: Seq<Entry>, upto: int) -> bool
    decreases upto,
{
    if upto <= 0 {
        true
    } else {
        blocks_resolved(blocks, table, upto - 1) && items_resolved(
            blocks[upto - 1].codes,
            table,
            blocks[upto - 1].codes.len() as int,
        )
    }
}

/// Whether every symbolic jump of the program names a label.
pub open spec fn fully_resolved(blocks: Seq<Block>) -> bool {
    blocks_resolved(blocks, table_of(blocks), blocks.len() as int)
}

fn is_listed(target: &String, addresses: &Vec<(String, u16)>) -> (out: bool)
    ensures
        out == listed(target@, entries(addresses@), addresses@.len() as int),
{
    let mut j: usize = 0;
    let mut found: bool = false;
    while j < addresses.len()
        invariant
            j <= addresses@.len(),
            found == listed(target@, entries(addresses@), j as int),
        decreases addresses@.len() - j,
    {
        let name = chars_of(addresses[j].0.as_str());
        if same_chars(&name, target.as_str()) {
            found = true;
        }
        j += 1;
    }
    found
}

fn label_resolved(label: &Label, addresses: &Vec<(String, u16)>) -> (out: bool)
    ensures
        out == items_resolved(label@.codes, entries(addresses@), label@.codes.len() as int),
{
    let mut k: usize = 0;
    let mut good: bool = true;
    while k < label.codes.len()
        invariant
            k <= label.codes@.len(),
            label@.codes.len() == label.codes@.len(),
            good == items_resolved(label@.codes, entries(addresses@), k as int),
        decreases label.codes@.len() - k,
    {
        assert(label@.codes[k as int] == label.codes@[k as int]@);
        match &label.codes[k] {
            Expression::Jump { nemode, address } => {
                if !is_listed(address, addresses) {
                    good = false;
                }
            },
            _ => {},
        }
        k += 1;
    }
    good
}

fn push_word(codes: &mut Vec<u8>, word: u16)
    ensures
        final(codes)@ == old(codes)@ + word_bytes(word),
{
    codes.push((word / 256) as u8);
    codes.push((word % 256) as u8);
    assert(codes@ =~= old(codes)@ + word_bytes(word));
}

fn process(label: &Label, codes: &mut Vec<u8>, addresses: &Vec<(String, u16)>)
    ensures
        final(codes)@ == old(codes)@ + block_bytes(label@.codes, entries(addresses@), label@.codes.len() as int),
{
    let ghost table = entries(addresses@);
    let mut k: usize = 0;
    while k < label.codes.len()
        invariant
            k <= label.codes@.len(),
            table == entries(addresses@),
            label@.codes.len() == label.codes@.len(),
            codes@ == old(codes)@ + block_bytes(label@.codes, table, k as int),
        decreases label.codes@.len() - k,
    {
        let ghost before = codes@;
        assert(label@.codes[k as int] == label.codes@[k as int]@);
        match &label.codes[k] {
            Expression::Opcode(code) => {
                push_word(codes, *code);
            },
            Expression::Jump { nemode, address } => {
                let mut j: usize = 0;
                while j < addresses.len()
                    invariant
                        j <= addresses@.len(),
                        table == entries(addresses@),
                        codes@ == before + jump_bytes(*nemode, address@, table, j as int),
                    decreases addresses@.len() - j,
                {
                    let ghost inner = codes@;
                    let name = chars_of(addresses[j].0.as_str());
                    if same_chars(&name, address.as_str()) {
                        push_word(codes, *nemode | addresses[j].1);
                    }
                    assert(codes@ =~= before + jump_bytes(*nemode, address@, table, j + 1));
                    j += 1;
                }
            },
            Expression::Sprite(data) => {
                let mut j: usize = 0;
                while j < data.len()
                    invariant
                        j <= data@.len(),
                        codes@ == before + sprite_bytes(data@).subrange(0, j as int),
                    decreases data@.len() - j,
                {
                    codes.push((data[j] % 256) as u8);
                    assert(codes@ =~= before + sprite_bytes(data@).subrange(0, j + 1));
                    j += 1;
                }
                assert(sprite_bytes(data@).subrange(0, j as int) =~= sprite_bytes(data@));
            },
            _ => {
                assert(codes@ =~= before + Seq::<u8>::empty());
            },
        }
        assert(codes@ =~= old(codes)@ + block_bytes(label@.codes, table, k + 1));
        k += 1;
    }
}

fn add16(a: u16, b: usize) -> (out: u16)
    ensures
        out == wrap(a as int, b as int),
{
    ((a as usize % 0x10000 + b % 0x10000) % 0x10000) as u16
}

fn double16(a: u16, b: usize) -> (out: u16)
    ensures
        out == wrap(a as int, 2 * b),
{
    add16(add16(a, b), b)
}

fn size_of_label(label: &Label, from: u16) -> (out: u16)
    ensures
        out == wrap(from as int, size_of(label@)),
{
    let subtype = chars_of(label.subtype.as_str());
    if same_chars(&subtype, "sprite") {
        let mut at: u16 = from;
        let mut k: usize = 0;
        while k < label.codes.len()
            invariant
                k <= label.codes@.len(),
                label@.codes.len() == label.codes@.len(),
                at == wrap(from as int, sprite_size(label@.codes, k as int)),
            decreases label.codes@.len() - k,
        {
            assert(label@.codes[k as int] == label.codes@[k as int]@);
            match &label.codes[k] {
                Expression::Sprite(data) => {
                    at = add16(at, data.len());
                },
                _ => {},
            }
            k += 1;
        }
        at
    } else if same_chars(&subtype, "commands") {
        double16(from, label.codes.len())
    } else {
        from
    }
}

pub struct Assemblier {
    pub map: Vec<Label>,
}

impl View for Assemblier {
    type V = Seq<Block>;

    open spec fn view(&self) -> Seq<Block> {
        Seq::new(self.map@.len(), |i: int| self.map@[i]@)
    }
}

impl Assemblier {
    /// An assembler without blocks.
    pub fn new() -> (out: Self)
        ensures
            out@ == Seq::<Block>::empty(),
    {
        let out = Assemblier { map: Vec::new() };
        assert(out@ =~= Seq::<Block>::empty());
        out
    }

    /// Reads `data` to its end and keeps the blocks it declares. Returns
    /// the errors met; source that gave any is not assembled successfully.
    pub fn init(&mut self, data: &str) -> (errors: Vec<ParseError>)
        ensures
            ({
                let parser = State {
                    cursor: crate::utils::lexer::Cursor {
                        index: 0,
                        current: if data@.len() > 0 { data@[0] } else { ' ' },
                        to_newline: false,
                        column: 0,
                        row: 0,
                    },
                    current: Kind::NoToken,
                    position: crate::utils::position::Position { column: 0, line: 0, width: 0 },
                };
                let done = collect(
                    data@,
                    parser,
                    Draft { blocks: old(self)@, open: None, codes: Seq::empty(), errors: Seq::empty() },
                );
                final(self)@ == done.blocks && errors@ == done.errors
            }),
    {
        let mut parser = Parser::new(data);
        let mut sub: Option<(String, String)> = None;
        let mut codes: Vec<Expression> = Vec::new();
        let mut errors: Vec<ParseError> = Vec::new();
        let ghost goal = collect(
            data@,
            parser@,
            Draft { blocks: self@, open: None, codes: Seq::empty(), errors: Seq::empty() },
        );
        assert(nodes(codes@) =~= Seq::<Node>::empty());
        assert(errors@ =~= Seq::<ParseError>::empty());
        loop
            invariant_except_break
                collect(
                    data@,
                    parser@,
                    Draft { blocks: self@, open: open_of(sub), codes: nodes(codes@), errors: errors@ },
                ) == goal,
            invariant
                parser.well_formed(),
                parser.text() == data@,
            ensures
                close(Draft { blocks: self@, open: open_of(sub), codes: nodes(codes@), errors: errors@ })
                    == goal,
            decreases data@.len() - parser@.cursor.index,
        {
            let ghost draft = Draft {
                blocks: self@,
                open: open_of(sub),
                codes: nodes(codes@),
                errors: errors@,
            };
            match parser.next_token() {
                Err(error) => {
                    errors.push(error);
                    assert(errors@ =~= with_error(draft, error).errors);
                },
                Ok(more) => {
                    if !more {
                        break ;
                    }
                    if parser.at_semicolon() {
                        continue ;
                    }
                    match parser.get_next() {
                        Err(error) => {
                            errors.push(error);
                            assert(errors@ =~= with_error(draft, error).errors);
                        },
                        Ok(init) => {
                            let ghost node = init@;
                            match init {
                                Expression::Subroutine { subtype, name } => {
                                    codes = self.insert(&sub, codes);
                                    sub = Some((name, subtype));
                                },
                                Expression::Opcode(code) => {
                                    if Self::is_under(&sub, "commands") {
                                        codes.push(Expression::Opcode(code));
                                        assert(nodes(codes@) =~= draft.codes.push(node));
                                    }
                                },
                                Expression::Jump { nemode, address } => {
                                    if Self::is_under(&sub, "commands") {
                                        codes.push(Expression::Jump { nemode, address });
                                        assert(nodes(codes@) =~= draft.codes.push(node));
                                    }
                                },
                                Expression::Sprite(bytes) => {
                                    if Self::is_under(&sub, "sprite") {
                                        codes.push(Expression::Sprite(bytes));
                                        assert(nodes(codes@) =~= draft.codes.push(node));
                                    }
                                },
                                Expression::End => {},
                            }
                        },
                    }
                },
            }
        }
        self.insert(&sub, codes);
        errors
    }

    /// Whether a label is open and its content type is `subtype`, in any case.
    fn is_under(sub: &Option<(String, String)>, subtype: &str) -> (out: bool)
        ensures
            out == match *sub {
                Some(pair) => same_word(pair.1@, subtype@),
                None => false,
            },
    {
        match sub {
            Some(pair) => {
                let chars = chars_of(pair.1.as_str());
                same_chars(&chars, subtype)
            },
            None => false,
        }
    }

    /// Closes the open label. Returns the items that are still to be placed.
    fn insert(&mut self, sub: &Option<(String, String)>, codes: Vec<Expression>) -> (rest: Vec<Expression>)
        ensures
            ({
                let done = close(
                    Draft {
                        blocks: old(self)@,
                        open: open_of(*sub),
                        codes: nodes(codes@),
                        errors: Seq::empty(),
                    },
                );
                final(self)@ == done.blocks && nodes(rest@) == done.codes
            }),
    {
        match sub {
            Some(pair) => {
                if codes.len() > 0 {
                    let label = Label { name: pair.0.clone(), subtype: pair.1.clone(), codes };
                    let ghost block = label@;
                    let mut at: usize = 0;
                    while at < self.map.len() && self.map[at].name != label.name
                        invariant
                            at <= self.map@.len(),
                            self.map == old(self).map,
                            first_named(self@, label.name@, at as int) == first_named(self@, label.name@, 0),
                        decreases self.map@.len() - at,
                    {
                        at += 1;
                    }
                    if at < self.map.len() {
                        self.map.set(at, label);
                        assert(self@ =~= old(self)@.update(at as int, block));
                    } else {
                        self.map.push(label);
                        assert(self@ =~= old(self)@.push(block));
                    }
                    let rest: Vec<Expression> = Vec::new();
                    assert(nodes(rest@) =~= Seq::<Node>::empty());
                    return rest;
                }
                codes
            },
            None => codes,
        }
    }

    /// Whether a block named `start` was declared.
    pub fn has_start(&self) -> (out: bool)
        ensures
            out == has_start(self@),
    {
        self.start_index() < self.map.len()
    }

    fn start_index(&self) -> (at: usize)
        ensures
            at == first_named(self@, "start"@, 0),
            at <= self.map@.len(),
    {
        let mut at: usize = 0;
        while at < self.map.len() && !crate::text::equal_chars(&chars_of(self.map[at].name.as_str()), "start")
            invariant
                at <= self.map@.len(),
                first_named(self@, "start"@, at as int) == first_named(self@, "start"@, 0),
            decreases self.map@.len() - at,
        {
            at += 1;
        }
        at
    }

    /// The address table: `start` at the program base, then every other
    /// block at the first free address behind those before it.
    pub fn layout(&self) -> (addresses: Vec<(String, u16)>)
        requires
            has_start(self@),
        ensures
            entries(addresses@) == table_of(self@),
    {
        let mut addresses: Vec<(String, u16)> = Vec::new();
        addresses.push((String::from_str("start"), 0x200));
        assert(entries(addresses@) =~= table_after(self@, 0));
        let start: usize = self.start_index();
        assert(self@[start as int].codes.len() == self.map@[start as int].codes@.len());
        let mut current: u16 = double16(0x200, self.map[start].codes.len());
        let mut k: usize = 0;
        while k < self.map.len()
            invariant
                k <= self.map@.len(),
                current == free_after(self@, k as int),
                entries(addresses@) == table_after(self@, k as int),
            decreases self.map@.len() - k,
        {
            let name = chars_of(self.map[k].name.as_str());
            if !same_chars(&name, "start") {
                addresses.push((self.map[k].name.clone(), current));
                assert(entries(addresses@) =~= table_after(self@, k + 1));
                current = size_of_label(&self.map[k], current);
            }
            k += 1;
        }
        addresses
    }

    /// Whether every symbolic jump of the program names a label.
    pub fn is_resolved(&self) -> (out: bool)
        requires
            has_start(self@),
        ensures
            out == fully_resolved(self@),
    {
        let addresses = self.layout();
        let mut k: usize = 0;
        let mut good: bool = true;
        while k < self.map.len()
            invariant
                k <= self.map@.len(),
                entries(addresses@) == table_of(self@),
                good == blocks_resolved(self@, table_of(self@), k as int),
            decreases self.map@.len() - k,
        {
            if !label_resolved(&self.map[k], &addresses) {
                good = false;
            }
            k += 1;
        }
        good
    }

    /// The program bytes, if every symbolic jump names a label; `None` if
    /// one does not.
    pub fn run_strict(&mut self) -> (out: Option<Vec<u8>>)
        requires
            has_start(old(self)@),
        ensures
            final(self)@ == old(self)@,
            match out {
                Some(codes) => fully_resolved(old(self)@) && codes@ == program(old(self)@),
                None => !fully_resolved(old(self)@),
            },
    {
        if self.is_resolved() {
            Some(self.run())
        } else {
            None
        }
    }

    /// The program bytes: `start` first, then every other block in the
    /// order of the layout. A symbolic jump whose target is no label gives
    /// no bytes.
    pub fn run(&mut self) -> (codes: Vec<u8>)
        requires
            has_start(old(self)@),
        ensures
            codes@ == program(old(self)@),
            final(self)@ == old(self)@,
    {
        let mut codes: Vec<u8> = Vec::new();
        let addresses = self.layout();
        let start: usize = self.start_index();
        process(&self.map[start], &mut codes, &addresses);
        let ghost head = codes@;
        let mut k: usize = 0;
        while k < self.map.len()
            invariant
                k <= self.map@.len(),
                self@ == old(self)@,
                codes@ == head + rest_bytes(self@, entries(addresses@), k as int),
            decreases self.map@.len() - k,
        {
            let name = chars_of(self.map[k].name.as_str());
            if !same_chars(&name, "start") {
                process(&self.map[k], &mut codes, &addresses);
            }
            assert(codes@ =~= head + rest_bytes(self@, entries(addresses@), k + 1));
            k += 1;
        }
        assert(codes@ =~= program(self@));
        codes
    }
}

/// The address table of any program begins with `start` at the program
/// base, so a jump to `start` always finds its target.
pub proof fn layout_begins_with_start(blocks: Seq<Block>, upto: int)
    ensures
        table_after(blocks, upto).len() >= 1,
        table_after(blocks, upto)[0] == (Entry { name: "start"@, at: 0x200 }),
        upto == blocks.len() ==> table_of(blocks)[0] == (Entry { name: "start"@, at: 0x200 }),
    decreases upto,
{
    if upto > 0 {
        layout_begins_with_start(blocks, upto - 1);
    }
}

/// Every block that is not laid out as `start` has its line in the address
/// table: the last line once the blocks up to it are laid out, with the
/// first free address behind the blocks before it.
pub proof fn layout_places_each_block(blocks: Seq<Block>, k: int)
    requires
        0 <= k < blocks.len(),
        !is_start(blocks[k].name),
    ensures
        table_after(blocks, k + 1).last() == (Entry { name: blocks[k].name, at: free_after(blocks, k) }),
        free_after(blocks, k + 1) == wrap(free_after(blocks, k) as int, size_of(blocks[k])),
{
}

} // verus!
