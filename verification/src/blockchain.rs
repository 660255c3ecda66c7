//! Blocks of device commands and the chain that holds them.
use vstd::prelude::*;
use vstd::utf8::encode_utf8;
use crate::text::{decimal, debug_str, debug_quoted, u64_to_decimal};
use crate::digest::{sha256, hex_lower, is_lower_hex, sha256_digest, to_hex_lower};
use crate::instance::config::DIFFICULTY;

verus! {

/// One device entry: which device, the command it was given, and its state.
#[derive(Debug)]
pub struct Data {
    pub id: String,
    pub command: String,
    pub state: String,
}

/// The mathematical value of a `Data`.
pub struct DataModel {
    pub id: Seq<char>,
    pub command: Seq<char>,
    pub state: Seq<char>,
}

impl View for Data {
    type V = DataModel;

    open spec fn view(&self) -> DataModel {
        DataModel { id: self.id@, command: self.command@, state: self.state@ }
    }
}

impl Clone for Data {
    fn clone(&self) -> (res: Self)
        ensures
            res@ == self@,
    {
        Data { id: self.id.clone(), command: self.command.clone(), state: self.state.clone() }
    }
}

impl Data {
    pub fn new(id: String, command: String, state: String) -> (res: Self)
        ensures
            res.id == id,
            res.command == command,
            res.state == state,
    {
        Data { id, command, state }
    }
}

fn copy_data_list(v: &Vec<Data>) -> (res: Vec<Data>)
    ensures
        data_models(res@) == data_models(v@),
{
    let r = v.clone();
    assert(data_models(r@) =~= data_models(v@));
    r
}

/// How `{:?}` prints one `Data`: the form that `#[derive(Debug)]` gives a struct.
pub open spec fn render_data(d: DataModel) -> Seq<char> {
    "Data { id: "@ + debug_str(d.id) + ", command: "@ + debug_str(d.command) + ", state: "@
        + debug_str(d.state) + " }"@
}

/// The items of a list, each rendered, separated by `", "`.
pub open spec fn render_items(s: Seq<DataModel>) -> Seq<char>
    decreases s.len(),
{
    if s.len() == 0 {
        Seq::empty()
    } else if s.len() == 1 {
        render_data(s[0])
    } else {
        render_items(s.drop_last()) + ", "@ + render_data(s.last())
    }
}

/// How `{:?}` prints a `Vec<Data>`.
pub open spec fn render_data_list(s: Seq<DataModel>) -> Seq<char> {
    "["@ + render_items(s) + "]"@
}

/// The models of a list of entries.
pub open spec fn data_models(v: Seq<Data>) -> Seq<DataModel> {
    v.map_values(|d: Data| d@)
}

fn render_one(d: &Data) -> (s: String)
    ensures
        s@ == render_data(d@),
{
    let mut s = String::from_str("Data { id: ");
    s.append(debug_quoted(d.id.as_str()).as_str());
    s.append(", command: ");
    s.append(debug_quoted(d.command.as_str()).as_str());
    s.append(", state: ");
    s.append(debug_quoted(d.state.as_str()).as_str());
    s.append(" }");
    s
}

/// Renders a list of entries as `{:?}` does.
pub fn render_list(v: &Vec<Data>) -> (s: String)
    ensures
        s@ == render_data_list(data_models(v@)),
{
    let ghost m = data_models(v@);
    let mut s = String::from_str("[");
    let n = v.len();
    for i in 0..n
        invariant
            n == v@.len(),
            m == data_models(v@),
            s@ == "["@ + render_items(m.take(i as int)),
    {
        let ghost prev = s@;
        if i > 0 {
            s.append(", ");
        }
        s.append(render_one(&v[i]).as_str());
        proof {
            assert(m.take(i + 1).drop_last() =~= m.take(i as int));
            assert(m.take(i + 1).last() == v@[i as int]@);
            if i == 0 {
                assert(m.take(i as int) =~= Seq::<DataModel>::empty());
                assert(render_items(m.take(i as int)) =~= Seq::<char>::empty());
                assert(prev =~= "["@);
            }
            assert(s@ =~= "["@ + render_items(m.take(i + 1)));
        }
    }
    assert(m.take(n as int) =~= m);
    s.append("]");
    s
}


/// A block: its position, when it was made, the device entries it records,
/// the hash of the block before it, and the proof-of-work nonce and hash.
#[derive(Debug)]
pub struct Block {
    pub index: u64,
    pub timestamp: u64,
    pub data: Vec<Data>,
    pub previous_hash: String,
    pub nonce: u64,
    pub hash: String,
}

/// The mathematical value of a `Block`.
#[verifier::ext_equal]
pub struct BlockModel {
    pub index: u64,
    pub timestamp: u64,
    pub data: Seq<DataModel>,
    pub previous_hash: Seq<char>,
    pub nonce: u64,
    pub hash: Seq<char>,
}

impl View for Block {
    type V = BlockModel;

    open spec fn view(&self) -> BlockModel {
        BlockModel {
            index: self.index,
            timestamp: self.timestamp,
            data: data_models(self.data@),
            previous_hash: self.previous_hash@,
            nonce: self.nonce,
            hash: self.hash@,
        }
    }
}

impl Clone for Block {
    fn clone(&self) -> (res: Self)
        ensures
            res@ == self@,
    {
        Block {
            index: self.index,
            timestamp: self.timestamp,
            data: copy_data_list(&self.data),
            previous_hash: self.previous_hash.clone(),
            nonce: self.nonce,
            hash: self.hash.clone(),
        }
    }
}

/// The text whose UTF-8 bytes are hashed: index, timestamp, the `{:?}` rendering of
/// the entries, the previous hash and the nonce, one after the other.
pub open spec fn hash_preimage(b: BlockModel) -> Seq<char> {
    decimal(b.index as nat) + decimal(b.timestamp as nat) + render_data_list(b.data)
        + b.previous_hash + decimal(b.nonce as nat)
}

/// The hash of a block: SHA-256 of the preimage's UTF-8 bytes, in lower-case hexadecimal.
pub open spec fn block_hash(b: BlockModel) -> Seq<char> {
    hex_lower(sha256(encode_utf8(hash_preimage(b))))
}

/// The block with another nonce.
pub open spec fn with_nonce(b: BlockModel, nonce: u64) -> BlockModel {
    BlockModel { nonce, ..b }
}

/// A hash meets the proof-of-work target of `difficulty` when it starts with that
/// many `'0'` characters.
pub open spec fn meets_target(hash: Seq<char>, difficulty: nat) -> bool {
    &&& hash.len() >= difficulty
    &&& forall|i: int| 0 <= i < difficulty ==> hash[i] == '0'
}

/// A block is mined for `difficulty` when its hash is its own hash, no smaller nonce
/// meets the target, and its nonce meets the target (or every nonce up to the largest
/// `u64` was tried).
pub open spec fn is_mined(b: BlockModel, difficulty: nat) -> bool {
    &&& b.hash == block_hash(b)
    &&& forall|n: u64| n < b.nonce ==> !meets_target(#[trigger] block_hash(with_nonce(b, n)), difficulty)
    &&& meets_target(b.hash, difficulty) || b.nonce == u64::MAX
}

/// Reads the system clock: whole seconds since the Unix epoch.
/// Calls `std::time::UNIX_EPOCH.elapsed()` (the time from the epoch to now) and takes
/// the seconds of the duration. Nothing is stated of the result: it is the time of the
/// call, and `None` where the clock stands before 1970.
#[verifier::external_body]
fn unix_time_secs() -> (res: Option<u64>) {
    match std::time::UNIX_EPOCH.elapsed() {
        Ok(d) => Some(d.as_secs()),
        Err(_) => None,
    }
}

fn render_hash_preimage(b: &Block) -> (s: String)
    ensures
        s@ == hash_preimage(b@),
{
    let mut s = u64_to_decimal(b.index);
    s.append(u64_to_decimal(b.timestamp).as_str());
    s.append(render_list(&b.data).as_str());
    s.append(b.previous_hash.as_str());
    s.append(u64_to_decimal(b.nonce).as_str());
    s
}

impl Block {
    /// A block made now: the clock gives its timestamp; nonce 0 and an empty hash.
    /// `None` where the clock stands before 1970 (no block can be stamped then).
    pub fn new(index: u64, data: Vec<Data>, previous_hash: String) -> (res: Option<Self>)
        ensures
            res matches Some(b) ==> {
                &&& b.index == index
                &&& b.data@ == data@
                &&& b.previous_hash@ == previous_hash@
                &&& b.nonce == 0
                &&& b.hash@ == Seq::<char>::empty()
            },
    {
        match unix_time_secs() {
            Some(timestamp) => Some(Block::new_at(index, timestamp, data, previous_hash)),
            None => None,
        }
    }

    /// A block with the given timestamp; nonce 0 and an empty hash.
    pub fn new_at(index: u64, timestamp: u64, data: Vec<Data>, previous_hash: String) -> (res: Self)
        ensures
            res.index == index,
            res.timestamp == timestamp,
            res.data@ == data@,
            res.previous_hash@ == previous_hash@,
            res.nonce == 0,
            res.hash@ == Seq::<char>::empty(),
    {
        Block { index, timestamp, data, previous_hash, nonce: 0, hash: String::new() }
    }

    /// The hash of this block's current contents: 64 lower-case hexadecimal digits.
    pub fn calculate_hash(&self) -> (res: String)
        ensures
            res@ == block_hash(self@),
            res@.len() == 64,
            is_lower_hex(res@),
    {
        let contents = render_hash_preimage(self);
        let digest = sha256_digest(contents.as_str().as_bytes());
        to_hex_lower(digest.as_slice())
    }

    /// Proof of work: tries nonces from 0 upward and keeps the first whose hash
    /// starts with `difficulty` zeros. A hash has 64 digits, so a difficulty above 64
    /// could never be met.
    pub fn mine_block(&mut self, difficulty: usize)
        requires
            difficulty <= 64,
        ensures
            final(self).index == old(self).index,
            final(self).timestamp == old(self).timestamp,
            final(self).data@ == old(self).data@,
            final(self).previous_hash@ == old(self).previous_hash@,
            is_mined(final(self)@, difficulty as nat),
    {
        self.nonce = 0;
        let ghost base = self@;
        loop
            invariant
                self.index == base.index,
                self.timestamp == base.timestamp,
                self@.data == base.data,
                self.data@ == old(self).data@,
                self@.previous_hash == base.previous_hash,
                base.index == old(self).index,
                base.timestamp == old(self).timestamp,
                base.data == old(self)@.data,
                base.previous_hash == old(self).previous_hash@,
                forall|n: u64| n < self.nonce ==> !meets_target(
                    #[trigger] block_hash(with_nonce(base, n)),
                    difficulty as nat,
                ),
            ensures
                is_mined(self@, difficulty as nat),
                self.index == old(self).index,
                self.timestamp == old(self).timestamp,
                self.data@ == old(self).data@,
                self.previous_hash@ == old(self).previous_hash@,
            decreases u64::MAX - self.nonce,
        {
            self.hash = self.calculate_hash();
            proof {
                lemma_same_search(self@, base, difficulty as nat);
            }
            if starts_with_zeros(&self.hash, difficulty) {
                break;
            }
            if self.nonce == u64::MAX {
                break;
            }
            proof {
                lemma_hash_ignores_stored_hash(self@, with_nonce(base, self.nonce));
            }
            self.nonce = self.nonce + 1;
        }
    }
}

/// The hash of a block reads every field but the stored hash.
proof fn lemma_hash_ignores_stored_hash(a: BlockModel, b: BlockModel)
    requires
        a.index == b.index,
        a.timestamp == b.timestamp,
        a.data == b.data,
        a.previous_hash == b.previous_hash,
        a.nonce == b.nonce,
    ensures
        block_hash(a) == block_hash(b),
{
    assert(hash_preimage(a) =~= hash_preimage(b));
}

proof fn lemma_same_search(b: BlockModel, base: BlockModel, d: nat)
    requires
        b.index == base.index,
        b.timestamp == base.timestamp,
        b.data == base.data,
        b.previous_hash == base.previous_hash,
        forall|n: u64| n < b.nonce ==> !meets_target(#[trigger] block_hash(with_nonce(base, n)), d),
    ensures
        forall|n: u64| n < b.nonce ==> !meets_target(#[trigger] block_hash(with_nonce(b, n)), d),
{
    assert forall|n: u64| n < b.nonce implies !meets_target(#[trigger] block_hash(with_nonce(b, n)), d) by {
        lemma_hash_ignores_stored_hash(with_nonce(b, n), with_nonce(base, n));
    }
}

/// Whether `s` starts with `k` characters `'0'` (`str::starts_with` on `"0".repeat(k)`).
pub fn starts_with_zeros(s: &String, k: usize) -> (res: bool)
    ensures
        res == meets_target(s@, k as nat),
{
    let n = s.as_str().unicode_len();
    if n < k {
        return false;
    }
    let mut i: usize = 0;
    while i < k
        invariant
            i <= k <= n,
            n == s@.len(),
            forall|j: int| 0 <= j < i ==> s@[j] == '0',
        decreases k - i,
    {
        if s.as_str().get_char(i) != '0' {
            return false;
        }
        i = i + 1;
    }
    true
}


/// The chain of blocks, and the difficulty that new blocks are mined at.
#[derive(Debug)]
pub struct Blockchain {
    pub blocks: Vec<Block>,
    pub difficulty: usize,
}

/// The mathematical value of a `Blockchain`.
#[verifier::ext_equal]
pub struct ChainModel {
    pub blocks: Seq<BlockModel>,
    pub difficulty: usize,
}

/// The models of a list of blocks.
pub open spec fn block_models(v: Seq<Block>) -> Seq<BlockModel> {
    v.map_values(|b: Block| b@)
}

impl View for Blockchain {
    type V = ChainModel;

    open spec fn view(&self) -> ChainModel {
        ChainModel { blocks: block_models(self.blocks@), difficulty: self.difficulty }
    }
}

impl Clone for Blockchain {
    fn clone(&self) -> (res: Self)
        ensures
            res@ == self@,
    {
        let blocks = self.blocks.clone();
        assert(block_models(blocks@) =~= block_models(self.blocks@));
        Blockchain { blocks, difficulty: self.difficulty }
    }
}

/// The entries of the genesis block: the genesis marker, one car and one drone.
pub open spec fn genesis_entries() -> Seq<DataModel> {
    seq![
        DataModel { id: "Genesis"@, command: "Genesis"@, state: "Genesis"@ },
        DataModel { id: "192.168.50.207"@, command: "s"@, state: "STAY"@ },
        DataModel { id: "192.168.50.33"@, command: "land"@, state: "STAY"@ },
    ]
}

/// Every block after the first links to its predecessor's hash and stands at its own
/// position.
pub open spec fn linked(blocks: Seq<BlockModel>) -> bool {
    &&& forall|i: int| 0 <= i < blocks.len() ==> #[trigger] blocks[i].index == i
    &&& forall|i: int| 1 <= i < blocks.len() ==> #[trigger] blocks[i].previous_hash == blocks[i - 1].hash
}

/// `new` is `old` with one mined block appended that records `d`: the new block stands
/// at the next position, carries the last block's entries followed by `d`, and links to
/// the last block's hash.
pub open spec fn appended(old: ChainModel, new: ChainModel, d: DataModel) -> bool {
    let last = old.blocks.last();
    let b = new.blocks.last();
    &&& new.difficulty == old.difficulty
    &&& new.blocks.len() == old.blocks.len() + 1
    &&& new.blocks.drop_last() == old.blocks
    &&& b.index == old.blocks.len()
    &&& b.data == last.data.push(d)
    &&& b.previous_hash == last.hash
    &&& is_mined(b, old.difficulty as nat)
}

/// Does the block hold an entry for device `id`?
pub open spec fn has_entry(b: BlockModel, id: Seq<char>) -> bool {
    exists|i: int| 0 <= i < b.data.len() && (#[trigger] b.data[i]).id == id
}

/// One entry after an update for device `id`: an entry of that device whose command
/// differs takes the new command and state; every other entry stays.
pub open spec fn updated_entry(d: DataModel, id: Seq<char>, cmd: Seq<char>, state: Seq<char>) -> DataModel {
    if d.id == id && d.command != cmd {
        DataModel { id: d.id, command: cmd, state }
    } else {
        d
    }
}

/// The last block with its entries updated for device `id`; hash and nonce unchanged.
pub open spec fn updated_block(b: BlockModel, id: Seq<char>, cmd: Seq<char>, state: Seq<char>) -> BlockModel {
    BlockModel { data: b.data.map_values(|d: DataModel| updated_entry(d, id, cmd, state)), ..b }
}

/// Whether every block after the first carries `block`'s hash and links to its predecessor.
pub open spec fn valid_against(blocks: Seq<BlockModel>, block: BlockModel) -> bool {
    forall|i: int|
        1 <= i < blocks.len() ==> (#[trigger] blocks[i]).hash == block_hash(block)
            && blocks[i].previous_hash == blocks[i - 1].hash
}

impl Blockchain {
    /// A chain that holds only the genesis block (made now, not mined: nonce 0, empty
    /// hash, previous hash "0"), at the configured difficulty. `None` where the clock
    /// stands before 1970.
    pub fn new() -> (res: Option<Self>)
        ensures
            res matches Some(c) ==> {
                &&& c@.difficulty == DIFFICULTY
                &&& c@.blocks.len() == 1
                &&& c@.blocks[0].index == 0
                &&& c@.blocks[0].data == genesis_entries()
                &&& c@.blocks[0].previous_hash == "0"@
                &&& c@.blocks[0].nonce == 0
                &&& c@.blocks[0].hash == Seq::<char>::empty()
                &&& linked(c@.blocks)
            },
    {
        match unix_time_secs() {
            Some(timestamp) => Some(Blockchain::new_at(timestamp)),
            None => None,
        }
    }

    /// A chain that holds only the genesis block stamped `timestamp` (not mined: nonce
    /// 0, empty hash, previous hash "0"), at the configured difficulty.
    pub fn new_at(timestamp: u64) -> (res: Self)
        ensures
            res@.difficulty == DIFFICULTY,
            res@.blocks.len() == 1,
            res@.blocks[0].index == 0,
            res@.blocks[0].timestamp == timestamp,
            res@.blocks[0].data == genesis_entries(),
            res@.blocks[0].previous_hash == "0"@,
            res@.blocks[0].nonce == 0,
            res@.blocks[0].hash == Seq::<char>::empty(),
            linked(res@.blocks),
    {
        let mut blockchain = Blockchain { blocks: Vec::new(), difficulty: DIFFICULTY };
        let mut genesis_data: Vec<Data> = Vec::new();
        let data = Data {
            id: String::from_str("Genesis"),
            command: String::from_str("Genesis"),
            state: String::from_str("Genesis"),
        };
        let car1_data = Data {
            id: String::from_str("192.168.50.207"),
            command: String::from_str("s"),
            state: String::from_str("STAY"),
        };
        let drone1_data = Data {
            id: String::from_str("192.168.50.33"),
            command: String::from_str("land"),
            state: String::from_str("STAY"),
        };
        genesis_data.push(data);
        genesis_data.push(car1_data);
        genesis_data.push(drone1_data);
        let genesis_block = Block::new_at(0, timestamp, genesis_data, String::from_str("0"));
        blockchain.blocks.push(genesis_block);
        proof {
            assert(blockchain@.blocks[0].data =~= genesis_entries());
        }
        blockchain
    }

    /// Appends a mined block that records the last block's entries followed by `data`,
    /// and returns it. `None`, with the chain unchanged, where the clock stands before
    /// 1970.
    pub fn add_block(&mut self, data: Data) -> (res: Option<Block>)
        requires
            old(self).blocks.len() > 0,
            old(self).difficulty <= 64,
        ensures
            res matches Some(b) ==> appended(old(self)@, final(self)@, data@) && b@ == final(self)@.blocks.last(),
            res is None ==> final(self)@ == old(self)@,
    {
        match unix_time_secs() {
            Some(timestamp) => Some(self.add_block_at(data, timestamp)),
            None => None,
        }
    }

    /// Appends a mined block stamped `timestamp` that records the last block's entries
    /// followed by `data`, and returns it.
    pub fn add_block_at(&mut self, data: Data, timestamp: u64) -> (res: Block)
        requires
            old(self).blocks.len() > 0,
            old(self).difficulty <= 64,
        ensures
            appended(old(self)@, final(self)@, data@),
            res@ == final(self)@.blocks.last(),
            res.timestamp == timestamp,
    {
        let len = self.blocks.len();
        let last_block = &self.blocks[len - 1];
        let mut new_block_data = copy_data_list(&last_block.data);
        let ghost d = data@;
        new_block_data.push(data);
        let mut new_block = Block::new_at(len as u64, timestamp, new_block_data, last_block.hash.clone());
        new_block.mine_block(self.difficulty);
        let ghost old_blocks = self@.blocks;
        self.blocks.push(new_block.clone());
        proof {
            assert(new_block@.data =~= old_blocks.last().data.push(d));
            assert(self@.blocks.drop_last() =~= old_blocks);
        }
        new_block
    }

    /// Appends a block received from another node.
    pub fn update_block(&mut self, block: Block)
        ensures
            final(self)@.blocks == old(self)@.blocks.push(block@),
            final(self)@.difficulty == old(self)@.difficulty,
    {
        self.blocks.push(block);
        proof {
            assert(self@.blocks =~= old(self)@.blocks.push(block@));
        }
    }

    /// The chain length as the decimal text that the node publishes.
    pub fn update_block_length(&self) -> (res: String)
        ensures
            res@ == decimal(self@.blocks.len()),
    {
        u64_to_decimal(self.blocks.len() as u64)
    }

    /// Checks every block after the first: it must carry the hash of `block` and link
    /// to its predecessor's hash.
    pub fn is_valid(&self, block: &Block) -> (res: bool)
        ensures
            res == valid_against(self@.blocks, block@),
            res <==> forall|i: int|
                1 <= i < self@.blocks.len() ==> (#[trigger] self@.blocks[i]).hash == hex_lower(
                    sha256(encode_utf8(hash_preimage(block@))),
                ) && self@.blocks[i].previous_hash == self@.blocks[i - 1].hash,
    {
        let n = self.blocks.len();
        let mut i: usize = 1;
        while i < n
            invariant
                1 <= i,
                n == self@.blocks.len(),
                forall|j: int|
                    1 <= j < i && j < n ==> (#[trigger] self@.blocks[j]).hash == block_hash(block@)
                        && self@.blocks[j].previous_hash == self@.blocks[j - 1].hash,
            decreases n - i,
        {
            let current = &self.blocks[i];
            let previous = &self.blocks[i - 1];
            let h = block.calculate_hash();
            if current.hash != h {
                assert(self@.blocks[i as int].hash != block_hash(block@));
                return false;
            }
            if current.previous_hash != previous.hash {
                assert(self@.blocks[i as int].previous_hash != self@.blocks[i - 1].hash);
                return false;
            }
            i = i + 1;
        }
        true
    }

    /// Records a command for device `id`: where the last block already has an entry
    /// for `id`, that block's entries are updated in place (`update_my_data`);
    /// otherwise a new block with the entry `(id, cmd, state)` is mined and appended
    /// (`None`, with the chain unchanged, where the clock stands before 1970).
    /// Returns the last block afterwards.
    pub fn check_data_exist(&mut self, id: String, cmd: String, state: String) -> (res: Option<Block>)
        requires
            old(self).blocks.len() > 0,
            !has_entry(old(self)@.blocks.last(), id@) ==> old(self).difficulty <= 64,
        ensures
            has_entry(old(self)@.blocks.last(), id@) ==> res is Some && final(self)@ == (ChainModel {
                blocks: old(self)@.blocks.update(
                    old(self)@.blocks.len() - 1,
                    updated_block(old(self)@.blocks.last(), id@, cmd@, state@),
                ),
                difficulty: old(self)@.difficulty,
            }),
            !has_entry(old(self)@.blocks.last(), id@) && res is Some ==> appended(
                old(self)@,
                final(self)@,
                DataModel { id: id@, command: cmd@, state: state@ },
            ),
            res is None ==> final(self)@ == old(self)@,
            res matches Some(b) ==> b@ == final(self)@.blocks.last(),
            has_entry(old(self)@.blocks.last(), id@) ==> final(self)@.blocks.len() == old(
                self,
            )@.blocks.len() && final(self)@.blocks.last().hash == old(self)@.blocks.last().hash
                && final(self)@.blocks.last().nonce == old(self)@.blocks.last().nonce
                && final(self)@.blocks.last().index == old(self)@.blocks.last().index
                && final(self)@.blocks.last().timestamp == old(self)@.blocks.last().timestamp
                && final(self)@.blocks.last().previous_hash == old(self)@.blocks.last().previous_hash,
    {
        let n = self.blocks.len();
        let last_block = self.blocks[n - 1].clone();
        let m = last_block.data.len();
        let mut k: usize = 0;
        while k < m
            invariant
                m == last_block.data@.len(),
                last_block@ == self@.blocks.last(),
                n == self@.blocks.len(),
                n > 0,
                self == old(self),
                forall|j: int| 0 <= j < k ==> (#[trigger] last_block@.data[j]).id != id@,
            decreases m - k,
        {
            if last_block.data[k].id == id {
                assert(last_block@.data[k as int].id == id@);
                assert(has_entry(old(self)@.blocks.last(), id@));
                return Some(self.update_my_data(id, cmd, state));
            }
            k = k + 1;
        }
        let data = Data::new(id, cmd, state);
        self.add_block(data)
    }

    /// Updates the last block's entries for device `id`: each such entry whose command
    /// differs from `cmd` takes `cmd` and `state`. The hash is not recomputed.
    /// Returns the last block afterwards.
    pub fn update_my_data(&mut self, id: String, cmd: String, state: String) -> (res: Block)
        requires
            old(self).blocks.len() > 0,
        ensures
            final(self)@ == (ChainModel {
                blocks: old(self)@.blocks.update(
                    old(self)@.blocks.len() - 1,
                    updated_block(old(self)@.blocks.last(), id@, cmd@, state@),
                ),
                difficulty: old(self)@.difficulty,
            }),
            res@ == final(self)@.blocks.last(),
            final(self)@.blocks.len() == old(self)@.blocks.len(),
            forall|i: int|
                0 <= i < old(self)@.blocks.len() - 1 ==> #[trigger] final(self)@.blocks[i]
                    == old(self)@.blocks[i],
            res@.index == old(self)@.blocks.last().index,
            res@.timestamp == old(self)@.blocks.last().timestamp,
            res@.previous_hash == old(self)@.blocks.last().previous_hash,
            res@.nonce == old(self)@.blocks.last().nonce,
            res@.hash == old(self)@.blocks.last().hash,
            res@.data.len() == old(self)@.blocks.last().data.len(),
            forall|j: int|
                0 <= j < res@.data.len() ==> #[trigger] res@.data[j] == (if old(
                    self,
                )@.blocks.last().data[j].id == id@ && old(self)@.blocks.last().data[j].command
                    != cmd@ {
                    DataModel { id: id@, command: cmd@, state: state@ }
                } else {
                    old(self)@.blocks.last().data[j]
                }),
    {
        let ghost old_blocks = self@.blocks;
        let mut last_block = match self.blocks.pop() {
            Some(b) => b,
            None => Block::new_at(0, 0, Vec::new(), String::new()),
        };
        let ghost lm = last_block@;
        let m = last_block.data.len();
        let mut new_data: Vec<Data> = Vec::new();
        let mut k: usize = 0;
        while k < m
            invariant
                m == last_block.data@.len(),
                lm == last_block@,
                k <= m,
                new_data@.len() == k,
                forall|j: int| 0 <= j < k ==> (#[trigger] new_data@[j])@ == updated_entry(
                    lm.data[j],
                    id@,
                    cmd@,
                    state@,
                ),
            decreases m - k,
        {
            let d = &last_block.data[k];
            if d.id == id && d.command != cmd {
                new_data.push(Data { id: d.id.clone(), command: cmd.clone(), state: state.clone() });
            } else {
                new_data.push(d.clone());
            }
            k = k + 1;
        }
        last_block.data = new_data;
        proof {
            assert(last_block@ =~= updated_block(lm, id@, cmd@, state@));
        }
        self.blocks.push(last_block.clone());
        proof {
            assert(self@.blocks =~= old_blocks.update(old_blocks.len() - 1, updated_block(lm, id@, cmd@, state@)));
        }
        last_block
    }

    /// The newest block.
    pub fn get_last_block(&self) -> (res: &Block)
        requires
            self.blocks.len() > 0,
        ensures
            res@ == self@.blocks.last(),
    {
        &self.blocks[self.blocks.len() - 1]
    }
}


/// Law: appending a mined block keeps a linked chain linked: the new block stands at
/// the next position and names the previous block's hash.
pub proof fn law_append_keeps_chain_linked(old: ChainModel, new: ChainModel, d: DataModel)
    requires
        linked(old.blocks),
        appended(old, new, d),
    ensures
        linked(new.blocks),
{
    assert forall|i: int| 0 <= i < new.blocks.len() implies #[trigger] new.blocks[i].index == i by {
        if i < old.blocks.len() {
            assert(new.blocks[i] == new.blocks.drop_last()[i]);
        }
    }
    assert forall|i: int| 1 <= i < new.blocks.len() implies #[trigger] new.blocks[i].previous_hash
        == new.blocks[i - 1].hash by {
        if i < old.blocks.len() {
            assert(new.blocks[i] == new.blocks.drop_last()[i]);
            assert(new.blocks[i - 1] == new.blocks.drop_last()[i - 1]);
        } else {
            assert(new.blocks[i - 1] == new.blocks.drop_last()[i - 1]);
        }
    }
}

/// Law: updating the last block's entries in place keeps a linked chain linked, since
/// positions and hashes stay as they were.
pub proof fn law_update_keeps_chain_linked(
    blocks: Seq<BlockModel>,
    id: Seq<char>,
    cmd: Seq<char>,
    state: Seq<char>,
)
    requires
        linked(blocks),
        blocks.len() > 0,
    ensures
        linked(blocks.update(blocks.len() - 1, updated_block(blocks.last(), id, cmd, state))),
{
    let nb = blocks.update(blocks.len() - 1, updated_block(blocks.last(), id, cmd, state));
    assert forall|i: int| 0 <= i < nb.len() implies #[trigger] nb[i].index == i by {
        assert(blocks[i].index == i);
    }
    assert forall|i: int| 1 <= i < nb.len() implies #[trigger] nb[i].previous_hash == nb[i - 1].hash by {
        assert(blocks[i].previous_hash == blocks[i - 1].hash);
    }
}

/// The last block of `new` holds an entry for device `id`, and every entry for `id`
/// in it carries command `cmd`.
pub open spec fn records_command(new: ChainModel, id: Seq<char>, cmd: Seq<char>) -> bool {
    &&& has_entry(new.blocks.last(), id)
    &&& forall|j: int|
        0 <= j < new.blocks.last().data.len() && (#[trigger] new.blocks.last().data[j]).id == id
            ==> new.blocks.last().data[j].command == cmd
}

/// Law: after a command for device `id` is recorded (`check_data_exist`, by either of
/// its two outcomes), the last block holds an entry for `id` and every entry for `id`
/// there carries that command.
pub proof fn law_recorded_command_is_read_back(
    old: ChainModel,
    new: ChainModel,
    id: Seq<char>,
    cmd: Seq<char>,
    state: Seq<char>,
)
    requires
        old.blocks.len() > 0,
        has_entry(old.blocks.last(), id) ==> new == (ChainModel {
            blocks: old.blocks.update(
                old.blocks.len() - 1,
                updated_block(old.blocks.last(), id, cmd, state),
            ),
            difficulty: old.difficulty,
        }),
        !has_entry(old.blocks.last(), id) ==> appended(
            old,
            new,
            DataModel { id, command: cmd, state },
        ),
    ensures
        records_command(new, id, cmd),
{
    let last = old.blocks.last();
    if has_entry(last, id) {
        let ub = updated_block(last, id, cmd, state);
        assert(new.blocks.last() == ub);
        let i = choose|i: int| 0 <= i < last.data.len() && (#[trigger] last.data[i]).id == id;
        assert(ub.data[i].id == id);
        assert forall|j: int|
            0 <= j < ub.data.len() && (#[trigger] ub.data[j]).id == id implies ub.data[j].command == cmd by {
            assert(ub.data[j] == updated_entry(last.data[j], id, cmd, state));
        }
    } else {
        let b = new.blocks.last();
        let k = last.data.len() as int;
        assert(b.data[k].id == id);
        assert forall|j: int| 0 <= j < b.data.len() && (#[trigger] b.data[j]).id == id implies b.data[j].command
            == cmd by {
            if j < k {
                assert(b.data[j] == last.data[j]);
            }
        }
    }
}


/// Law: a mined block's stored hash is the hash of its contents, so hashing it again
/// (`calculate_hash` after `mine_block`) gives the stored hash back.
pub proof fn law_mined_hash_is_current(b: BlockModel, difficulty: nat)
    requires
        is_mined(b, difficulty),
    ensures
        b.hash == block_hash(b),
{
}

/// Law: mining at difficulty `d` gives a hash that starts with `d` zeros, unless no
/// nonce up to the largest `u64` does, and then no smaller nonce does either.
pub proof fn law_mined_meets_target(b: BlockModel, d: nat)
    requires
        is_mined(b, d),
        !meets_target(b.hash, d),
    ensures
        b.nonce == u64::MAX,
        forall|n: u64| n <= b.nonce ==> !meets_target(#[trigger] block_hash(with_nonce(b, n)), d),
{
    assert forall|n: u64| n <= b.nonce implies !meets_target(#[trigger] block_hash(with_nonce(b, n)), d) by {
        if n == b.nonce {
            assert(with_nonce(b, n) =~= b);
        }
    }
}

/// Law: a chain of one block passes `is_valid` whatever block it is checked against.
pub proof fn law_single_block_chain_is_valid(blocks: Seq<BlockModel>, block: BlockModel)
    requires
        blocks.len() <= 1,
    ensures
        valid_against(blocks, block),
{
}

/// Law: a block appended to a chain of one block validates that chain: checked
/// against the new block, `is_valid` holds.
pub proof fn law_first_appended_block_validates(old: ChainModel, new: ChainModel, d: DataModel)
    requires
        old.blocks.len() == 1,
        appended(old, new, d),
    ensures
        valid_against(new.blocks, new.blocks.last()),
{
    assert(new.blocks[0] == new.blocks.drop_last()[0]);
}

/// Law: `is_valid` judges a block by the hash of its contents, not by the hash text it
/// carries: on a chain of two or more blocks, a block whose contents do not hash to the
/// second block's hash fails, whatever hash it stores; and a block passes only if
/// every later block carries the hash of its contents.
pub proof fn law_validity_judges_contents(blocks: Seq<BlockModel>, block: BlockModel)
    ensures
        blocks.len() >= 2 && blocks[1].hash != hex_lower(sha256(encode_utf8(hash_preimage(block))))
            ==> !valid_against(blocks, block),
        valid_against(blocks, block) ==> forall|i: int|
            1 <= i < blocks.len() ==> #[trigger] blocks[i].hash == hex_lower(
                sha256(encode_utf8(hash_preimage(block))),
            ),
        forall|h: Seq<char>|
            valid_against(blocks, block) <==> valid_against(blocks, BlockModel { hash: h, ..block }),
{
    assert forall|h: Seq<char>|
        valid_against(blocks, block) <==> valid_against(blocks, BlockModel { hash: h, ..block }) by {
        lemma_hash_ignores_stored_hash(block, BlockModel { hash: h, ..block });
    }
}

/// Law: an in-place update changes only the entries of the last block: its position,
/// timestamp, link, nonce and stored hash stay, as does the number of its entries; an
/// entry of another device, or one whose command already is `cmd`, stays as it was;
/// an updated entry keeps its device and takes `cmd` and `state`.
pub proof fn law_update_changes_only_entries(b: BlockModel, id: Seq<char>, cmd: Seq<char>, state: Seq<char>)
    ensures
        updated_block(b, id, cmd, state).index == b.index,
        updated_block(b, id, cmd, state).timestamp == b.timestamp,
        updated_block(b, id, cmd, state).previous_hash == b.previous_hash,
        updated_block(b, id, cmd, state).nonce == b.nonce,
        updated_block(b, id, cmd, state).hash == b.hash,
        updated_block(b, id, cmd, state).data.len() == b.data.len(),
        forall|j: int|
            0 <= j < b.data.len() && (b.data[j].id != id || b.data[j].command == cmd)
                ==> #[trigger] updated_block(b, id, cmd, state).data[j] == b.data[j],
        forall|j: int|
            0 <= j < b.data.len() && b.data[j].id == id && b.data[j].command != cmd
                ==> #[trigger] updated_block(b, id, cmd, state).data[j] == (DataModel {
                id,
                command: cmd,
                state,
            }),
{
}

} // verus!
