//! Grants channel modes to known users when they join.

use vstd::prelude::*;
use vstd::hash_map::StringHashMap;
pub use crate::command::Command;
use crate::command::CommandView;
use crate::irc::{Message, MessageView};
use crate::util::{entries, get_strings, strings_at, table_entries};

verus! {

/// A privilege that can be granted to a user on a channel.
#[derive(Debug, PartialEq, Eq, Clone, Copy, Structural)]
pub enum Mode {
    /// Channel operator.
    Op,
}

impl Mode {
    /// The letter that names the mode in a `MODE` line.
    #[verifier::when_used_as_spec(spec_letter)]
    pub fn letter(self) -> (c: char)
        ensures
            c == self.spec_letter(),
    {
        match self {
            Mode::Op => 'o',
        }
    }

    pub open spec fn spec_letter(self) -> char {
        match self {
            Mode::Op => 'o',
        }
    }
}

/// The modes to grant, by channel and user. Both names are matched exactly
/// and with regard to case.
///
/// Each channel has a table of its own, found through `channels`; a lookup
/// is two hash lookups, whatever the number of entries.
pub struct Automode {
    channels: StringHashMap<usize>,
    tables: Vec<StringHashMap<Mode>>,
}

/// The mapping that an index of channels and the channels' tables stand for.
spec fn table_of(
    channels: Map<Seq<char>, usize>,
    tables: Seq<StringHashMap<Mode>>,
) -> Map<(Seq<char>, Seq<char>), Mode> {
    Map::new(
        |key: (Seq<char>, Seq<char>)|
            channels.contains_key(key.0) && tables[channels[key.0] as int]@.contains_key(key.1),
        |key: (Seq<char>, Seq<char>)| tables[channels[key.0] as int]@[key.1],
    )
}

/// What the producer answers to a message, given the table: one `ModeUser`
/// for a join of a listed user, nothing otherwise.
pub open spec fn reaction(
    table: Map<(Seq<char>, Seq<char>), Mode>,
    message: MessageView,
) -> Seq<CommandView> {
    match message {
        MessageView::Join { user, channel } => if table.contains_key((channel, user)) {
            seq![CommandView::ModeUser { user, mode: table[(channel, user)], channel }]
        } else {
            seq![]
        },
        _ => seq![],
    }
}

/// The table that a list of channels, each with its operators, expands
/// to: operator mode for every user named under a channel, and no other
/// entry.
pub open spec fn expansion(listed: Seq<(Seq<char>, Seq<Seq<char>>)>) -> Map<
    (Seq<char>, Seq<char>),
    Mode,
> {
    Map::new(|key: (Seq<char>, Seq<char>)| lists(listed, key), |key: (Seq<char>, Seq<char>)| Mode::Op)
}

/// Whether `listed` names the user `key.1` under the channel `key.0`.
pub open spec fn lists(listed: Seq<(Seq<char>, Seq<Seq<char>>)>, key: (Seq<char>, Seq<char>)) -> bool {
    exists|i: int|
        0 <= i < listed.len() && (#[trigger] listed[i]).0 == key.0 && listed[i].1.contains(key.1)
}

/// The channels of a configuration value, each with the strings listed as
/// its `ops`. A value that is no table has none.
pub open spec fn ops_lists(config: toml::Value) -> Seq<(Seq<char>, Seq<Seq<char>>)> {
    match entries(config) {
        Some(tables) => Seq::new(
            tables.len(),
            |i: int| (tables[i].0, strings_at(tables[i].1, "ops"@)),
        ),
        None => seq![],
    }
}

impl View for Automode {
    type V = Map<(Seq<char>, Seq<char>), Mode>;

    closed spec fn view(&self) -> Map<(Seq<char>, Seq<char>), Mode> {
        table_of(self.channels@, self.tables@)
    }
}

impl Automode {
    /// Every channel has a table, and no two channels share one.
    #[verifier::type_invariant]
    closed spec fn wf(self) -> bool {
        indexed(self.channels@, self.tables.len() as int)
    }

    /// A table without entries.
    pub fn new() -> (empty: Automode)
        ensures
            empty@ == Map::<(Seq<char>, Seq<char>), Mode>::empty(),
    {
        let empty = Automode { channels: StringHashMap::new(), tables: Vec::new() };
        assert(empty@ =~= Map::<(Seq<char>, Seq<char>), Mode>::empty());
        empty
    }

    /// The table with `mode` for `user` on `channel`, all else as before.
    pub fn grant(self, channel: &str, user: &str, mode: Mode) -> (granted: Automode)
        ensures
            granted@ == self@.insert((channel@, user@), mode),
    {
        proof {
            use_type_invariant(&self);
        }
        let ghost before = self@;
        let ghost old_channels = self.channels@;
        let ghost old_tables = self.tables@;
        let Automode { mut channels, mut tables } = self;
        match channels.get(channel) {
            Some(at) => {
                let at: usize = *at;
                tables[at].insert(String::from_str(user), mode);
                assert(tables@.len() == old_tables.len());
                assert(forall|i: int| 0 <= i < tables@.len() && i != at ==> tables@[i] == old_tables[i]);
            },
            None => {
                let mut table: StringHashMap<Mode> = StringHashMap::new();
                table.insert(String::from_str(user), mode);
                let at: usize = tables.len();
                tables.push(table);
                channels.insert(String::from_str(channel), at);
            },
        }
        let granted = Automode { channels, tables };
        assert(granted@ =~= before.insert((channel@, user@), mode));
        granted
    }

    /// The table that lists every user of `listed` as operator of the
    /// channel it stands under.
    pub fn from_entries(listed: &[(&str, Vec<&str>)]) -> (table: Automode)
        ensures
            table@ == expansion(listed.deep_view()),
    {
        let ghost all = listed.deep_view();
        let mut table = Automode::new();
        let mut i: usize = 0;
        proof {
            assert(table@ =~= expansion(all.take(0)));
        }
        while i < listed.len()
            invariant
                i <= listed.len(),
                all == listed.deep_view(),
                table@ == expansion(all.take(i as int)),
            decreases listed.len() - i,
        {
            let channel: &str = listed[i].0;
            let members: &Vec<&str> = &listed[i].1;
            let ghost done = all.take(i as int);
            let ghost names = members.deep_view();
            let mut j: usize = 0;
            proof {
                assert(all[i as int] == (channel@, names));
                lemma_expansion_empty(done, channel@);
                assert(names.take(0) =~= Seq::<Seq<char>>::empty());
            }
            while j < members.len()
                invariant
                    j <= members.len(),
                    names == members.deep_view(),
                    table@ == expansion(done.push((channel@, names.take(j as int)))),
                decreases members.len() - j,
            {
                proof {
                    lemma_expansion_grow(done, channel@, names, j as int);
                }
                table = table.grant(channel, members[j], Mode::Op);
                j += 1;
            }
            proof {
                assert(names.take(j as int) =~= names);
                assert(done.push((channel@, names)) =~= all.take(i + 1));
            }
            i += 1;
        }
        proof {
            assert(all.take(i as int) =~= all);
        }
        table
    }

    /// The mode listed for `user` on `channel`, if any.
    pub fn mode_of(&self, channel: &str, user: &str) -> (mode: Option<Mode>)
        ensures
            mode == if self@.contains_key((channel@, user@)) {
                Some(self@[(channel@, user@)])
            } else {
                None
            },
    {
        proof {
            use_type_invariant(self);
        }
        match self.channels.get(channel) {
            Some(at) => {
                match self.tables[*at].get(user) {
                    Some(mode) => Some(*mode),
                    None => None,
                }
            },
            None => None,
        }
    }

    /// Answers a join of a listed user with the grant of the listed mode;
    /// every other message, and a join of anybody else, with nothing.
    pub fn execute(&self, message: Message) -> (commands: Vec<Command>)
        ensures
            commands.deep_view() == reaction(self@, message@),
    {
        match message {
            Message::Join { user, channel } => {
                match self.mode_of(channel, user) {
                    Some(mode) => {
                        let commands = vec![
                            Command::ModeUser {
                                user: String::from_str(user),
                                mode,
                                channel: String::from_str(channel),
                            },
                        ];
                        assert(commands.deep_view() =~= reaction(self@, message@));
                        commands
                    },
                    None => {
                        let commands: Vec<Command> = Vec::new();
                        assert(commands.deep_view() =~= reaction(self@, message@));
                        commands
                    },
                }
            },
            _ => {
                let commands: Vec<Command> = Vec::new();
                assert(commands.deep_view() =~= reaction(self@, message@));
                commands
            },
        }
    }
}

/// A channel without operators adds nothing to a table.
proof fn lemma_expansion_empty(done: Seq<(Seq<char>, Seq<Seq<char>>)>, channel: Seq<char>)
    ensures
        expansion(done.push((channel, Seq::<Seq<char>>::empty()))) == expansion(done),
{
    let more = done.push((channel, Seq::<Seq<char>>::empty()));
    assert forall|key: (Seq<char>, Seq<char>)| lists(more, key) <==> lists(done, key) by {
        if lists(more, key) {
            let i = choose|i: int|
                0 <= i < more.len() && (#[trigger] more[i]).0 == key.0 && more[i].1.contains(key.1);
            assert(i < done.len());
            assert(done[i] == more[i]);
        }
        if lists(done, key) {
            let i = choose|i: int|
                0 <= i < done.len() && (#[trigger] done[i]).0 == key.0 && done[i].1.contains(key.1);
            assert(more[i] == done[i]);
        }
    }
    assert(expansion(more) =~= expansion(done));
}

/// One more operator of the last channel is one more entry of the table.
proof fn lemma_expansion_grow(
    done: Seq<(Seq<char>, Seq<Seq<char>>)>,
    channel: Seq<char>,
    names: Seq<Seq<char>>,
    j: int,
)
    requires
        0 <= j < names.len(),
    ensures
        expansion(done.push((channel, names.take(j + 1)))) == expansion(
            done.push((channel, names.take(j))),
        ).insert((channel, names[j]), Mode::Op),
{
    let n = done.len() as int;
    let fewer = done.push((channel, names.take(j)));
    let more = done.push((channel, names.take(j + 1)));
    let added = (channel, names[j]);
    assert forall|key: (Seq<char>, Seq<char>)|
        lists(more, key) <==> (lists(fewer, key) || key == added) by {
        if lists(more, key) {
            let i = choose|i: int|
                0 <= i < more.len() && (#[trigger] more[i]).0 == key.0 && more[i].1.contains(key.1);
            if i < n {
                assert(fewer[i] == more[i]);
            } else {
                let longer = names.take(j + 1);
                let k = choose|k: int| 0 <= k < longer.len() && longer[k] == key.1;
                if k < j {
                    assert(names.take(j)[k] == key.1);
                    assert(fewer[n].1.contains(key.1));
                }
            }
        }
        if lists(fewer, key) {
            let i = choose|i: int|
                0 <= i < fewer.len() && (#[trigger] fewer[i]).0 == key.0 && fewer[i].1.contains(
                    key.1,
                );
            if i < n {
                assert(more[i] == fewer[i]);
            } else {
                let shorter = names.take(j);
                let k = choose|k: int| 0 <= k < shorter.len() && shorter[k] == key.1;
                assert(names.take(j + 1)[k] == key.1);
                assert(more[n].1.contains(key.1));
            }
        }
        if key == added {
            assert(names.take(j + 1)[j] == names[j]);
            assert(more[n].1.contains(key.1));
        }
    }
    assert(expansion(more) =~= expansion(fewer).insert(added, Mode::Op));
}

/// Reads the table from a configuration value: a table of channels, each
/// with a list `ops` of the users to make operators. What is not such a
/// list counts as empty, and a value that is no table lists nobody.
pub fn init(config: &toml::Value) -> (table: Automode)
    ensures
        table@ == expansion(ops_lists(*config)),
{
    let mut listed: Vec<(&str, Vec<&str>)> = Vec::new();
    if let Some(tables) = table_entries(config) {
        let mut i: usize = 0;
        while i < tables.len()
            invariant
                i <= tables.len(),
                entries(*config) == Some(
                    Seq::new(tables@.len(), |k: int| (tables@[k].0@, *tables@[k].1)),
                ),
                listed.len() == i,
                forall|k: int| 0 <= k < i ==> (#[trigger] listed[k]).deep_view() == ops_lists(*config)[k],
            decreases tables.len() - i,
        {
            let (channel, value) = tables[i];
            let ops = get_strings(value, "ops");
            listed.push((channel, ops));
            i += 1;
        }
    }
    assert(listed.deep_view() =~= ops_lists(*config));
    Automode::from_entries(listed.as_slice())
}

/// Every channel of the index points into the tables, and no two channels
/// point to the same table.
spec fn indexed(channels: Map<Seq<char>, usize>, tables: int) -> bool {
    &&& forall|c: Seq<char>| channels.contains_key(c) ==> (#[trigger] channels[c]) < tables
    &&& forall|c: Seq<char>, d: Seq<char>|
        channels.contains_key(c) && channels.contains_key(d) && c != d ==> (#[trigger] channels[c])
            != (#[trigger] channels[d])
}

} // verus!
