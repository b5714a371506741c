//! Bot configurations read from a directory: one JSON file per bot, the
//! bot's name being the file name without its extension and its kind
//! (`single` or `multi`) being part of the file name.
use vstd::prelude::*;
use vstd::string::*;
use crate::text::{contains_piece, contains_text, lemma_split_last_spec, same_text, split_last, split_last_spec, splits_at_last};
use crate::types::values::{BotConfig, BotConfigView, BotKind, BotName};

verus! {

/// Why configurations could not be read.
#[derive(Debug, PartialEq, Eq)]
pub enum ConfigError {
    /// The file name names no bot kind; the file name.
    UnknownBotKind(String),
    /// The name has no file stem; the name.
    NoFileStem(String),
    /// The directory could not be listed; what the listing reported.
    ReadDir(String),
    /// This provider is not implemented.
    NotImplemented,
}

/// What reading one entry of the configuration directory gave.
#[derive(Debug)]
pub enum DirEntryRead {
    /// The directory listing failed at this entry.
    EntryError(String),
    /// The entry is a directory.
    Dir,
    /// The entry is the configuration of a bot.
    Config(BotName, BotConfig),
    /// The entry is a file that could not be read or parsed.
    ConfigError(String),
}

/// Configurations read from the directory `dir_path`, by bot name.
#[derive(Debug)]
pub struct BotConfigProviderFs {
    pub dir_path: String,
    /// The configurations read, as (bot name, configuration) pairs; the
    /// first pair of a name counts.
    pub all_configs: Vec<(BotName, BotConfig)>,
}

/// The configurations by bot name that a list of (name, configuration) pairs
/// holds; the first pair of a name counts.
pub open spec fn configs_map(v: Seq<(BotName, BotConfig)>) -> Map<Seq<char>, BotConfigView>
    decreases v.len(),
{
    if v.len() == 0 {
        Map::empty()
    } else {
        configs_map(v.drop_first()).insert(v[0].0@, v[0].1@)
    }
}

/// The bot kind a file name gives: `single` when it contains `single`, else
/// `multi` when it contains `multi`.
pub open spec fn bot_kind_spec(file_name: Seq<char>) -> Option<BotKind> {
    if contains_piece(file_name, "single"@) {
        Some(BotKind::Single)
    } else if contains_piece(file_name, "multi"@) {
        Some(BotKind::Multi)
    } else {
        None
    }
}

/// The stem of a file name: the name without its last extension. A name
/// starting with its only `.` is all stem; the empty name, `.` and `..`
/// have none.
pub open spec fn file_stem_spec(name: Seq<char>) -> Option<Seq<char>> {
    if name.len() == 0 || name == "."@ || name == ".."@ {
        None
    } else {
        match split_last_spec(name, '.') {
            Some((a, _b)) => if a.len() == 0 {
                Some(name)
            } else {
                Some(a)
            },
            None => Some(name),
        }
    }
}

/// The configurations after applying directory reads in order: each bot's
/// configuration replaces the previous one of that name, directories and
/// unreadable files change nothing, and a listing error stops the reading.
pub open spec fn apply_reads(m: Map<Seq<char>, BotConfigView>, reads: Seq<DirEntryRead>) -> Map<
    Seq<char>,
    BotConfigView,
>
    decreases reads.len(),
{
    if reads.len() == 0 {
        m
    } else {
        match reads[0] {
            DirEntryRead::EntryError(_) => m,
            DirEntryRead::Config(name, cfg) => apply_reads(m.insert(name@, cfg@), reads.drop_first()),
            _ => apply_reads(m, reads.drop_first()),
        }
    }
}

/// The listing error that stops the reading, if any.
pub open spec fn first_entry_error(reads: Seq<DirEntryRead>) -> Option<Seq<char>>
    decreases reads.len(),
{
    if reads.len() == 0 {
        None
    } else {
        match reads[0] {
            DirEntryRead::EntryError(e) => Some(e@),
            _ => first_entry_error(reads.drop_first()),
        }
    }
}

/// The errors of unreadable files met before the reading stops, in order.
pub open spec fn file_errors(reads: Seq<DirEntryRead>) -> Seq<Seq<char>>
    decreases reads.len(),
{
    if reads.len() == 0 {
        Seq::empty()
    } else {
        match reads[0] {
            DirEntryRead::EntryError(_) => Seq::empty(),
            DirEntryRead::ConfigError(e) => seq![e@] + file_errors(reads.drop_first()),
            _ => file_errors(reads.drop_first()),
        }
    }
}

proof fn lemma_configs_map_find(v: Seq<(BotName, BotConfig)>, k: Seq<char>, i: int)
    requires
        0 <= i < v.len(),
        v[i].0@ == k,
        forall|j: int| 0 <= j < i ==> (#[trigger] v[j]).0@ != k,
    ensures
        configs_map(v).contains_key(k),
        configs_map(v)[k] == v[i].1@,
    decreases v.len(),
{
    if i > 0 {
        let t = v.drop_first();
        assert forall|j: int| 0 <= j < i - 1 implies (#[trigger] t[j]).0@ != k by {
            assert(t[j] == v[j + 1]);
        }
        lemma_configs_map_find(t, k, i - 1);
        assert(v[0].0@ != k);
    }
}

proof fn lemma_configs_map_absent(v: Seq<(BotName, BotConfig)>, k: Seq<char>)
    requires
        forall|j: int| 0 <= j < v.len() ==> (#[trigger] v[j]).0@ != k,
    ensures
        !configs_map(v).contains_key(k),
    decreases v.len(),
{
    if v.len() > 0 {
        let t = v.drop_first();
        assert forall|j: int| 0 <= j < t.len() implies (#[trigger] t[j]).0@ != k by {
            assert(t[j] == v[j + 1]);
        }
        lemma_configs_map_absent(t, k);
        assert(v[0].0@ != k);
    }
}

proof fn lemma_configs_map_update(v: Seq<(BotName, BotConfig)>, i: int, p: (BotName, BotConfig))
    requires
        0 <= i < v.len(),
        v[i].0@ == p.0@,
        forall|j: int| 0 <= j < i ==> (#[trigger] v[j]).0@ != p.0@,
    ensures
        configs_map(v.update(i, p)) == configs_map(v).insert(p.0@, p.1@),
    decreases v.len(),
{
    if i == 0 {
        assert(v.update(0, p).drop_first() =~= v.drop_first());
        assert(v.update(0, p)[0] == p);
        assert(configs_map(v.update(i, p)) =~= configs_map(v).insert(p.0@, p.1@));
    } else {
        let t = v.drop_first();
        assert forall|j: int| 0 <= j < i - 1 implies (#[trigger] t[j]).0@ != p.0@ by {
            assert(t[j] == v[j + 1]);
        }
        lemma_configs_map_update(t, i - 1, p);
        assert(v.update(i, p).drop_first() =~= t.update(i - 1, p));
        assert(v.update(i, p)[0] == v[0]);
        assert(v[0].0@ != p.0@);
        assert(configs_map(v.update(i, p)) =~= configs_map(v).insert(p.0@, p.1@));
    }
}

proof fn lemma_configs_map_push(v: Seq<(BotName, BotConfig)>, p: (BotName, BotConfig))
    requires
        forall|j: int| 0 <= j < v.len() ==> (#[trigger] v[j]).0@ != p.0@,
    ensures
        configs_map(v.push(p)) == configs_map(v).insert(p.0@, p.1@),
    decreases v.len(),
{
    if v.len() == 0 {
        assert(v.push(p).drop_first() =~= Seq::<(BotName, BotConfig)>::empty());
        assert(v.push(p)[0] == p);
        assert(configs_map(v.push(p).drop_first()) =~= Map::<Seq<char>, BotConfigView>::empty());
        assert(configs_map(v) =~= Map::<Seq<char>, BotConfigView>::empty());
        assert(configs_map(v.push(p)) =~= configs_map(v).insert(p.0@, p.1@));
    } else {
        let t = v.drop_first();
        assert forall|j: int| 0 <= j < t.len() implies (#[trigger] t[j]).0@ != p.0@ by {
            assert(t[j] == v[j + 1]);
        }
        lemma_configs_map_push(t, p);
        assert(v.push(p).drop_first() =~= t.push(p));
        assert(v.push(p)[0] == v[0]);
        assert(v[0].0@ != p.0@);
        assert(configs_map(v.push(p)) =~= configs_map(v).insert(p.0@, p.1@));
    }
}

impl BotConfigProviderFs {
    /// The configurations read so far, by bot name.
    pub closed spec fn configs(&self) -> Map<Seq<char>, BotConfigView> {
        configs_map(self.all_configs@)
    }

    /// The directory read from.
    pub open spec fn dir(&self) -> Seq<char> {
        self.dir_path@
    }

    /// A provider for the directory `dir_path`, with nothing read yet.
    pub fn new(dir_path: &str) -> (res: BotConfigProviderFs)
        ensures
            res.dir() == dir_path@,
            res.dir_path@ == dir_path@,
            res.configs() == Map::<Seq<char>, BotConfigView>::empty(),
    {
        BotConfigProviderFs { dir_path: String::from_str(dir_path), all_configs: Vec::new() }
    }

    /// The kind of bot a configuration file is for, from its name.
    pub fn bot_kind(file_name: &str) -> (res: Result<BotKind, ConfigError>)
        ensures
            match res {
                Ok(k) => bot_kind_spec(file_name@) == Some(k),
                Err(e) => bot_kind_spec(file_name@) is None && (e matches ConfigError::UnknownBotKind(n)
                    && n@ == file_name@),
            },
    {
        if contains_text(file_name, "single") {
            Ok(BotKind::Single)
        } else if contains_text(file_name, "multi") {
            Ok(BotKind::Multi)
        } else {
            Err(ConfigError::UnknownBotKind(String::from_str(file_name)))
        }
    }

    /// The name of the bot a configuration file is for: the file's stem.
    pub fn bot_name(file_name: &str) -> (res: Result<BotName, ConfigError>)
        ensures
            match res {
                Ok(n) => file_stem_spec(file_name@) == Some(n@),
                Err(e) => file_stem_spec(file_name@) is None && (e matches ConfigError::NoFileStem(n)
                    && n@ == file_name@),
            },
    {
        if file_name.unicode_len() == 0 || same_text(file_name, ".") || same_text(file_name, "..") {
            return Err(ConfigError::NoFileStem(String::from_str(file_name)));
        }
        match split_last(file_name, '.') {
            Some((a, _b)) => {
                if a.unicode_len() == 0 {
                    Ok(String::from_str(file_name))
                } else {
                    Ok(a)
                }
            },
            None => Ok(String::from_str(file_name)),
        }
    }

    /// Sets the configuration of `name`, replacing the previous one.
    fn insert_config(&mut self, name: BotName, cfg: BotConfig)
        ensures
            final(self).dir() == old(self).dir(),
            final(self).configs() == old(self).configs().insert(name@, cfg@),
    {
        let mut i: usize = 0;
        while i < self.all_configs.len()
            invariant
                self.dir_path == old(self).dir_path,
                self.all_configs@ == old(self).all_configs@,
                i <= self.all_configs@.len(),
                forall|j: int| 0 <= j < i ==> (#[trigger] self.all_configs@[j]).0@ != name@,
            decreases self.all_configs.len() - i,
        {
            if self.all_configs[i].0 == name {
                let ghost v = self.all_configs@;
                let ghost view = cfg@;
                let ghost key = name@;
                self.all_configs.set(i, (name, cfg));
                proof {
                    lemma_configs_map_update(v, i as int, self.all_configs@[i as int]);
                }
                return;
            }
            i = i + 1;
        }
        let ghost v = self.all_configs@;
        self.all_configs.push((name, cfg));
        proof {
            lemma_configs_map_push(v, self.all_configs@.last());
        }
    }

    /// Applies the reads of the directory's entries, in order: each bot's
    /// configuration replaces the previous one of that name; directories are
    /// skipped; unreadable files are collected, to be reported, and skipped;
    /// a listing error stops the reading with an error, what was read before
    /// it staying.
    pub fn read_configs(&mut self, reads: Vec<DirEntryRead>) -> (res: Result<Vec<String>, ConfigError>)
        ensures
            final(self).dir() == old(self).dir(),
            final(self).configs() == apply_reads(old(self).configs(), reads@),
            match first_entry_error(reads@) {
                Some(e) => res matches Err(ConfigError::ReadDir(t)) && t@ == e,
                None => res matches Ok(errs) && errs@.map_values(|s: String| s@) == file_errors(reads@),
            },
    {
        let ghost all = reads@;
        let mut pending = reads;
        let mut errs: Vec<String> = Vec::new();
        let ghost m0 = self.configs();
        while pending.len() > 0
            invariant
                all == reads@,
                m0 == old(self).configs(),
                self.dir() == old(self).dir(),
                apply_reads(m0, all) == apply_reads(self.configs(), pending@),
                first_entry_error(all) == first_entry_error(pending@),
                file_errors(all) == errs@.map_values(|s: String| s@) + file_errors(pending@),
            decreases pending.len(),
        {
            let ghost before = pending@;
            let r = pending.remove(0);
            proof {
                assert(pending@ =~= before.drop_first());
            }
            match r {
                DirEntryRead::EntryError(e) => {
                    proof {
                        assert(before[0] is EntryError);
                        assert(apply_reads(self.configs(), before) == self.configs());
                        assert(first_entry_error(before) == Some(e@));
                    }
                    return Err(ConfigError::ReadDir(e));
                },
                DirEntryRead::Dir => {},
                DirEntryRead::Config(name, cfg) => {
                    self.insert_config(name, cfg);
                },
                DirEntryRead::ConfigError(e) => {
                    let ghost errs0 = errs@;
                    errs.push(e);
                    proof {
                        assert(errs@.map_values(|s: String| s@) =~= errs0.map_values(|s: String| s@) + seq![
                            before[0]->ConfigError_0@,
                        ]);
                    }
                },
            }
        }
        proof {
            assert(file_errors(pending@) =~= Seq::<Seq<char>>::empty());
            assert(file_errors(all) =~= errs@.map_values(|s: String| s@));
        }
        Ok(errs)
    }

    /// The configuration of `bot_name`, if one was read.
    pub fn get_config(&self, bot_name: &BotName) -> (res: Option<BotConfig>)
        ensures
            match res {
                Some(c) => self.configs().contains_key(bot_name@) && self.configs()[bot_name@] == c@,
                None => !self.configs().contains_key(bot_name@),
            },
    {
        let mut i: usize = 0;
        while i < self.all_configs.len()
            invariant
                i <= self.all_configs@.len(),
                forall|j: int| 0 <= j < i ==> (#[trigger] self.all_configs@[j]).0@ != bot_name@,
            decreases self.all_configs.len() - i,
        {
            if self.all_configs[i].0 == *bot_name {
                proof {
                    lemma_configs_map_find(self.all_configs@, bot_name@, i as int);
                }
                return Some(self.all_configs[i].1.duplicate());
            }
            i = i + 1;
        }
        proof {
            lemma_configs_map_absent(self.all_configs@, bot_name@);
        }
        None
    }
}

/// Whether one of `reads` is a configuration of the bot `name`.
pub open spec fn reads_config_of(reads: Seq<DirEntryRead>, name: Seq<char>) -> bool {
    exists|i: int| 0 <= i < reads.len() && is_config_of(#[trigger] reads[i], name)
}

/// Whether a read is a configuration of the bot `name`.
pub open spec fn is_config_of(r: DirEntryRead, name: Seq<char>) -> bool {
    match r {
        DirEntryRead::Config(n, _) => n@ == name,
        _ => false,
    }
}

proof fn lemma_apply_reads_push(m: Map<Seq<char>, BotConfigView>, reads: Seq<DirEntryRead>, n: BotName, c: BotConfig)
    requires
        first_entry_error(reads) is None,
    ensures
        apply_reads(m, reads.push(DirEntryRead::Config(n, c))) == apply_reads(m, reads).insert(n@, c@),
    decreases reads.len(),
{
    let x = DirEntryRead::Config(n, c);
    if reads.len() == 0 {
        assert(reads.push(x).drop_first() =~= Seq::<DirEntryRead>::empty());
        assert(reads.push(x)[0] == x);
        assert(apply_reads(m.insert(n@, c@), reads.push(x).drop_first()) == m.insert(n@, c@));
        assert(apply_reads(m, reads) == m);
    } else {
        assert(reads.push(x).drop_first() =~= reads.drop_first().push(x));
        assert(reads.push(x)[0] == reads[0]);
        match reads[0] {
            DirEntryRead::Config(n0, c0) => {
                lemma_apply_reads_push(m.insert(n0@, c0@), reads.drop_first(), n, c);
            },
            _ => {
                lemma_apply_reads_push(m, reads.drop_first(), n, c);
            },
        }
    }
}

/// A configuration read last is the one kept for its bot, when the listing
/// did not fail before it.
pub proof fn law_last_config_read_wins(
    m: Map<Seq<char>, BotConfigView>,
    reads: Seq<DirEntryRead>,
    name: BotName,
    cfg: BotConfig,
)
    requires
        first_entry_error(reads) is None,
    ensures
        apply_reads(m, reads.push(DirEntryRead::Config(name, cfg))).contains_key(name@),
        apply_reads(m, reads.push(DirEntryRead::Config(name, cfg)))[name@] == cfg@,
{
    lemma_apply_reads_push(m, reads, name, cfg);
}

/// A configuration already read stays as it was when no new configuration
/// of its bot is read: unreadable files, directories and a listing error do
/// not drop it.
pub proof fn law_unread_config_kept(m: Map<Seq<char>, BotConfigView>, reads: Seq<DirEntryRead>, name: Seq<char>)
    requires
        !reads_config_of(reads, name),
    ensures
        apply_reads(m, reads).contains_key(name) == m.contains_key(name),
        m.contains_key(name) ==> apply_reads(m, reads)[name] == m[name],
    decreases reads.len(),
{
    if reads.len() > 0 {
        let t = reads.drop_first();
        assert(!reads_config_of(t, name)) by {
            if reads_config_of(t, name) {
                let i = choose|i: int| 0 <= i < t.len() && is_config_of(#[trigger] t[i], name);
                assert(reads[i + 1] == t[i]);
            }
        }
        match reads[0] {
            DirEntryRead::EntryError(_) => {},
            DirEntryRead::Config(n0, c0) => {
                assert(!is_config_of(reads[0], name));
                law_unread_config_kept(m.insert(n0@, c0@), t, name);
            },
            _ => {
                law_unread_config_kept(m, t, name);
            },
        }
    }
}

/// Nothing after a listing error is applied.
pub proof fn law_listing_error_stops(
    m: Map<Seq<char>, BotConfigView>,
    reads: Seq<DirEntryRead>,
    e: String,
    rest: Seq<DirEntryRead>,
)
    requires
        first_entry_error(reads) is None,
    ensures
        apply_reads(m, reads + seq![DirEntryRead::EntryError(e)] + rest) == apply_reads(m, reads),
    decreases reads.len(),
{
    let tail = seq![DirEntryRead::EntryError(e)] + rest;
    if reads.len() == 0 {
        assert(reads + tail =~= tail);
        assert(tail[0] == DirEntryRead::EntryError(e));
    } else {
        assert((reads + tail).drop_first() =~= reads.drop_first() + tail);
        assert((reads + tail)[0] == reads[0]);
        assert(reads + seq![DirEntryRead::EntryError(e)] + rest =~= reads + tail);
        assert(reads.drop_first() + seq![DirEntryRead::EntryError(e)] + rest =~= reads.drop_first() + tail);
        match reads[0] {
            DirEntryRead::Config(n0, c0) => {
                law_listing_error_stops(m.insert(n0@, c0@), reads.drop_first(), e, rest);
            },
            _ => {
                law_listing_error_stops(m, reads.drop_first(), e, rest);
            },
        }
    }
}

/// A file name holding both `single` and `multi` is for a single-pair bot.
pub proof fn law_single_kind_first(file_name: Seq<char>)
    requires
        contains_piece(file_name, "single"@),
    ensures
        bot_kind_spec(file_name) == Some(BotKind::Single),
{
}

/// A file name holding `multi` and not `single` is for a multi-pair bot,
/// wherever `multi` stands in it.
pub proof fn law_multi_kind(before: Seq<char>, after: Seq<char>)
    requires
        !contains_piece(before + "multi"@ + after, "single"@),
    ensures
        bot_kind_spec(before + "multi"@ + after) == Some(BotKind::Multi),
{
    let f = before + "multi"@ + after;
    let i = before.len() as int;
    assert(f.subrange(i, i + "multi"@.len()) =~= "multi"@);
    assert(contains_piece(f, "multi"@));
}

/// A file name holding neither `single` nor `multi` is for no kind of bot.
pub proof fn law_unknown_kind(file_name: Seq<char>)
    requires
        !contains_piece(file_name, "single"@),
        !contains_piece(file_name, "multi"@),
    ensures
        bot_kind_spec(file_name) is None,
{
}

/// A bot is named by its file name without the last extension: the name of
/// `stem.ext` is `stem`, whatever dots `stem` holds, when `ext` holds none;
/// a name with no dot is all name (`..` alone names nothing).
pub proof fn law_bot_name_is_stem(stem: Seq<char>, ext: Seq<char>)
    requires
        stem.len() > 0,
        !ext.contains('.'),
        stem != seq!['.'] || ext.len() > 0,
    ensures
        file_stem_spec(stem + seq!['.'] + ext) == Some(stem),
        !stem.contains('.') ==> file_stem_spec(stem) == Some(stem),
{
    let name = stem + seq!['.'] + ext;
    assert(splits_at_last(name, '.', stem, ext));
    lemma_split_last_spec(name, '.', stem, ext);
    assert(name.len() >= 2);
    if name == "."@ || name == ".."@ {
        reveal_strlit(".");
        reveal_strlit("..");
        if name.len() == 2 {
            assert(stem.len() == 1 && ext.len() == 0);
            assert(name[0] == stem[0]);
            assert(name[0] == '.');
            assert(stem =~= seq!['.']);
        }
    }
    if !stem.contains('.') {
        if stem == "."@ || stem == ".."@ {
            reveal_strlit(".");
            reveal_strlit("..");
            assert(stem[0] == '.');
        }
    }
}

} // verus!
