//! Built-in word lists and utilities for retrieving them.

use vstd::prelude::*;

verus! {

const WORDS_TOP_250: &'static str = "about\nafter\nalso\nanswer\nask\nball\nbeen\nbetter\nblue\nboth\nbreak\ncall\ncare\nchange\nclass\ncold\ncountry\ndark\ndoes\ndown\ndrive\neasy\neven\nface\nfar\nfeel\nfind\nfish\nfood\nfound\nfrom\ngame\ngoes\ngot\ngrow\nhappy\nhead\nhelp\nhill\nhome\nhour\nkeep\nland\nlearn\nlet\nlike\nlittle\nlost\nlow\nman\nmay\nmile\nmore\nmuch\nnear\nnice\nnot\noften\nonly\nour\npage\npast\nplan\npull\nread\nride\nrock\nrun\nsay\nsee\nseven\nshould\nsister\nslow\nsong\nspace\nstay\nstory\ntake\ntell\nthat\nthen\nthing\ntime\ntook\ntry\nuntil\nwalk\nwatch\nwell\nwhat\nwhile\nwide\nwish\nworld\nyes\nyour\n";

const WORDS_TOP_500: &'static str = "about\nadd\nair\nalways\nanswer\naround\nback\nbase\nbeen\nbest\nbig\nboat\nboth\nbread\nbuild\ncame\ncare\ncause\nchild\nclean\ncold\ncould\ncross\nday\ndoes\ndoor\ndream\neach\neasy\nenough\nevery\nfact\nfar\nfather\nfew\nfine\nfish\nfollow\nfor\nfour\nfrom\nfunny\ngirl\ngold\ngot\ngroup\nhalf\nhard\nhead\nheart\nhere\nhim\nhome\nhot\nhow\nkind\nland\nlate\nleft\nletter\nlike\nlisten\nlong\nlot\nlow\nmake\nmap\nmean\nmile\nmiss\nmother\nmusic\nnear\nnext\nnine\nnote\noften\none\norder\nout\npage\npass\npick\nplant\npull\nran\nred\nright\nrock\nrule\nsame\nschool\nsee\nset\nship\nshow\nsister\nsleep\nsnow\nsoon\nspace\nstart\nstill\nsun\ntake\nteam\ntest\nthe\nthen\nthey\nthis\ntoday\ntook\ntrue\ntwo\nuse\nwalk\nwas\nway\nwent\nwhat\nwhich\nwho\nwill\nwish\nwork\nwrite\nyet\nyour\n";

const WORDS_TOP_1000: &'static str = "about\nact\nafter\nair\nalso\nand\nanswer\nare\nask\nback\nball\nbeach\nbeen\nbegin\nbetter\nbig\nblue\nbody\nboth\nboy\nbreak\nbuild\ncall\ncan\ncare\ncat\nchange\nchild\nclass\nclear\ncold\ncool\ncountry\ncross\ndark\ndeep\ndoes\ndone\ndown\ndream\ndrive\nearly\neasy\nend\neven\nevery\nface\nfall\nfar\nfast\nfeel\nfew\nfind\nfire\nfish\nfly\nfood\nfor\nfound\nfree\nfrom\nfull\ngame\ngirl\ngoes\ngone\ngot\ngreen\ngrow\nhalf\nhappy\nhas\nhead\nheard\nhelp\nhere\nhill\nhis\nhome\nhorse\nhour\nhow\nkeep\nking\nland\nlast\nlearn\nleft\nlet\nlife\nlike\nlist\nlittle\nlong\nlost\nloud\nlow\nmain\nman\nmap\nmay\nmen\nmile\nmind\nmore\nmother\nmuch\nmust\nnear\nnew\nnice\nnine\nnot\nnow\noften\nonce\nonly\norder\nour\nover\npage\npart\npast\npick\nplan\nplay\npull\nrain\nread\nred\nride\nriver\nrock\nround\nrun\nsame\nsay\nsea\nsee\nseen\nseven\nship\nshould\nside\nsister\nsky\nslow\nsnow\nsong\nsound\nspace\nstar\nstay\nstill\nstory\nsure\ntake\ntall\ntell\ntest\nthat\ntheir\nthen\nthese\nthing\nthis\ntime\ntold\ntook\ntree\ntry\ntwo\nuntil\nvery\nwalk\nwarm\nwatch\nway\nwell\nwere\nwhat\nwhere\nwhile\nwho\nwide\nwind\nwish\nword\nworld\nwrite\nyes\nyou\nyour\n";

const WORDS_TOP_2500: &'static str = "above\nact\nadd\nagain\nair\nall\nalways\nand\nanimal\nany\nare\naround\naway\nback\nbad\nbase\nbeach\nbecause\nbefore\nbegin\nbest\nbetween\nbig\nbird\nboat\nbody\nbook\nbox\nboy\nbread\nbring\nbuild\nbut\ncame\ncan\ncar\ncarry\ncat\ncause\ncheck\nchild\ncity\nclean\nclear\nclose\ncome\ncool\ncould\ncover\ncross\ncut\nday\ndeep\ndid\ndog\ndone\ndoor\ndraw\ndream\ndrink\neach\nearly\nearth\neat\nend\nenough\never\nevery\neye\nfact\nfall\nfamily\nfarm\nfast\nfather\nfeet\nfew\nfield\nfine\nfire\nfirst\nfive\nfly\nfollow\nfoot\nfor\nform\nfour\nfree\nfriend\nfront\nfull\nfunny\ngave\ngirl\ngive\ngold\ngone\ngood\ngreat\ngreen\ngroup\nhad\nhalf\nhand\nhard\nhas\nhave\nhear\nheard\nheart\nher\nhere\nhigh\nhim\nhis\nhold\nhope\nhorse\nhot\nhouse\nhow\nidea\nkind\nking\nknow\nlarge\nlast\nlate\nleave\nleft\nless\nletter\nlife\nlight\nline\nlist\nlisten\nlive\nlong\nlook\nlot\nloud\nlove\nmade\nmain\nmake\nmany\nmap\nmark\nmean\nmen\nmight\nmilk\nmind\nmiss\nmost\nmother\nmove\nmusic\nmust\nname\nnever\nnew\nnext\nnight\nnine\nnorth\nnote\nnow\nnumber\nold\nonce\none\nopen\norder\nother\nout\nover\nown\npaper\npart\npass\npeople\npick\nplace\nplant\nplay\npoint\nput\nrain\nran\nreal\nred\nrest\nright\nriver\nroad\nroom\nround\nrule\nsaid\nsame\nsaw\nschool\nsea\nsecond\nseem\nseen\nset\nshe\nship\nshort\nshow\nside\nsing\nsix\nsky\nsleep\nsmall\nsnow\nsome\nsoon\nsound\nsouth\nstand\nstar\nstart\nstep\nstill\nstop\nsun\nsure\ntable\ntalk\ntall\nteam\nten\ntest\nthan\nthe\ntheir\nthem\nthere\nthese\nthey\nthink\nthis\nthree\ntoday\ntold\ntoo\ntop\ntree\ntrue\nturn\ntwo\nunder\nuse\nvery\nvoice\nwant\nwarm\nwas\nwater\nway\nweek\nwent\nwere\nwest\nwhen\nwhere\nwhich\nwhite\nwho\nwhy\nwill\nwind\nwinter\nwith\nword\nwork\nwould\nwrite\nyear\nyet\nyou\nyoung\n";

const WORDS_TOP_5000: &'static str = "above\nact\nadd\nafter\nagain\nair\nall\nalways\nand\nanimal\nanswer\nany\nare\naround\naway\nback\nbad\nball\nbase\nbeach\nbecause\nbefore\nbegin\nbest\nbetter\nbetween\nbig\nbird\nboat\nbody\nbook\nboth\nbox\nboy\nbread\nbring\nbuild\nbut\ncall\ncame\ncan\ncar\ncarry\ncat\ncause\nchange\ncheck\nchild\ncity\nclean\nclear\nclose\ncold\ncome\ncool\ncould\ncover\ncross\ncut\ndark\nday\ndeep\ndid\ndog\ndone\ndoor\ndown\ndraw\ndream\ndrink\neach\nearly\nearth\neasy\neat\nend\nenough\never\nevery\neye\nface\nfact\nfall\nfamily\nfarm\nfast\nfather\nfeel\nfeet\nfew\nfield\nfine\nfire\nfirst\nfish\nfive\nfly\nfollow\nfoot\nfor\nform\nfound\nfour\nfree\nfriend\nfront\nfull\nfunny\ngame\ngave\ngirl\ngive\ngold\ngone\ngood\ngot\ngreat\ngreen\ngroup\nhad\nhalf\nhand\nhappy\nhard\nhas\nhave\nhear\nheard\nheart\nhelp\nher\nhere\nhigh\nhim\nhis\nhold\nhome\nhope\nhorse\nhot\nhouse\nhow\nidea\nkeep\nkind\nking\nknow\nlarge\nlast\nlate\nlearn\nleave\nleft\nless\nletter\nlife\nlight\nlike\nline\nlist\nlisten\nlive\nlong\nlook\nlost\nlot\nloud\nlove\nmade\nmain\nmake\nman\nmany\nmap\nmark\nmean\nmen\nmight\nmile\nmilk\nmind\nmiss\nmost\nmother\nmove\nmuch\nmusic\nmust\nname\nnever\nnew\nnext\nnice\nnight\nnine\nnorth\nnote\nnow\nnumber\noften\nold\nonce\none\nopen\norder\nother\nour\nout\nover\nown\npaper\npart\npass\npast\npeople\npick\nplace\nplant\nplay\npoint\npull\nput\nrain\nran\nreal\nred\nrest\nride\nright\nriver\nroad\nroom\nround\nrule\nrun\nsaid\nsame\nsaw\nschool\nsea\nsecond\nsee\nseem\nseen\nset\nshe\nship\nshort\nshould\nshow\nside\nsing\nsix\nsky\nsleep\nslow\nsmall\nsnow\nsome\nsoon\nsound\nsouth\nspace\nstand\nstar\nstart\nstep\nstill\nstop\nstory\nsun\nsure\ntable\ntalk\ntall\nteam\ntell\nten\ntest\nthan\nthe\ntheir\nthem\nthen\nthere\nthese\nthey\nthink\nthis\nthree\ntime\ntoday\ntold\ntoo\ntop\ntree\ntrue\ntry\nturn\ntwo\nunder\nuse\nvery\nvoice\nwalk\nwant\nwarm\nwas\nwater\nway\nweek\nwell\nwent\nwere\nwest\nwhen\nwhere\nwhich\nwhile\nwhite\nwho\nwhy\nwill\nwind\nwinter\nwish\nwith\nword\nwork\nwould\nwrite\nyear\nyes\nyet\nyou\nyoung\n";

const WORDS_TOP_10000: &'static str = "above\nact\nadd\nafter\nagain\nair\nall\nalso\nalways\nand\nanimal\nanswer\nany\nare\naround\naway\nback\nbad\nball\nbase\nbeach\nbecause\nbeen\nbefore\nbegin\nbest\nbetter\nbetween\nbig\nbird\nboat\nbody\nbook\nboth\nbox\nboy\nbread\nbreak\nbring\nbuild\nbut\ncall\ncame\ncan\ncar\ncarry\ncat\ncause\nchange\ncheck\nchild\ncity\nclass\nclean\nclear\nclose\ncold\ncome\ncool\ncould\ncover\ncross\ncut\ndark\nday\ndeep\ndid\ndoes\ndog\ndone\ndoor\ndown\ndraw\ndream\ndrink\neach\nearly\nearth\neasy\neat\nend\nenough\neven\never\nevery\neye\nface\nfact\nfall\nfamily\nfarm\nfast\nfather\nfeel\nfeet\nfew\nfield\nfind\nfine\nfire\nfirst\nfish\nfive\nfly\nfollow\nfoot\nfor\nform\nfound\nfour\nfree\nfriend\nfrom\nfront\nfull\nfunny\ngame\ngave\ngirl\ngive\ngold\ngone\ngood\ngot\ngreat\ngreen\ngroup\ngrow\nhad\nhalf\nhand\nhappy\nhard\nhas\nhave\nhear\nheard\nheart\nhelp\nher\nhere\nhigh\nhill\nhim\nhis\nhold\nhome\nhope\nhorse\nhot\nhouse\nhow\nidea\nkeep\nkind\nking\nknow\nland\nlarge\nlast\nlate\nlearn\nleave\nleft\nless\nletter\nlife\nlight\nlike\nline\nlist\nlisten\nlittle\nlive\nlong\nlook\nlost\nlot\nloud\nlove\nmade\nmain\nmake\nman\nmany\nmap\nmark\nmay\nmean\nmen\nmight\nmile\nmilk\nmind\nmiss\nmost\nmother\nmove\nmuch\nmusic\nmust\nname\nnear\nnever\nnew\nnext\nnice\nnight\nnine\nnorth\nnote\nnow\nnumber\noften\nold\nonce\none\nonly\nopen\norder\nother\nour\nout\nover\nown\npaper\npart\npass\npast\npeople\npick\nplace\nplan\nplant\nplay\npoint\npull\nput\nrain\nran\nreal\nred\nrest\nride\nright\nriver\nroad\nrock\nroom\nround\nrule\nrun\nsaid\nsame\nsaw\nschool\nsea\nsecond\nsee\nseem\nseen\nset\nseven\nshe\nship\nshort\nshould\nshow\nside\nsing\nsix\nsky\nsleep\nslow\nsmall\nsnow\nsome\nsong\nsoon\nsound\nsouth\nspace\nstand\nstar\nstart\nstep\nstill\nstop\nstory\nsun\nsure\ntable\ntake\ntalk\ntall\nteam\ntell\nten\ntest\nthan\nthe\ntheir\nthem\nthen\nthere\nthese\nthey\nthing\nthink\nthis\nthree\ntime\ntoday\ntold\ntoo\ntop\ntree\ntrue\ntry\nturn\ntwo\nunder\nuntil\nuse\nvery\nvoice\nwalk\nwant\nwarm\nwas\nwater\nway\nweek\nwell\nwent\nwere\nwest\nwhat\nwhen\nwhere\nwhich\nwhile\nwhite\nwho\nwhy\nwill\nwind\nwinter\nwish\nwith\nword\nwork\nworld\nwould\nwrite\nyear\nyes\nyet\nyou\nyoung\n";

const WORDS_TOP_25000: &'static str = "about\nabove\nact\nadd\nafter\nagain\nair\nall\nalso\nalways\nand\nanimal\nanswer\nany\nare\naround\nask\naway\nback\nbad\nball\nbase\nbeach\nbecause\nbeen\nbefore\nbegin\nbest\nbetter\nbetween\nbig\nbird\nblue\nboat\nbody\nbook\nboth\nbox\nboy\nbread\nbreak\nbring\nbuild\nbut\ncall\ncame\ncan\ncar\ncare\ncarry\ncat\ncause\nchange\ncheck\nchild\ncity\nclass\nclean\nclear\nclose\ncold\ncome\ncool\ncould\ncountry\ncover\ncross\ncut\ndark\nday\ndeep\ndid\ndoes\ndog\ndone\ndoor\ndown\ndraw\ndream\ndrink\ndrive\neach\nearly\nearth\neasy\neat\nend\nenough\neven\never\nevery\neye\nface\nfact\nfall\nfamily\nfar\nfarm\nfast\nfather\nfeel\nfeet\nfew\nfield\nfind\nfine\nfire\nfirst\nfish\nfive\nfly\nfollow\nfood\nfoot\nfor\nform\nfound\nfour\nfree\nfriend\nfrom\nfront\nfull\nfunny\ngame\ngave\ngirl\ngive\ngoes\ngold\ngone\ngood\ngot\ngreat\ngreen\ngroup\ngrow\nhad\nhalf\nhand\nhappy\nhard\nhas\nhave\nhead\nhear\nheard\nheart\nhelp\nher\nhere\nhigh\nhill\nhim\nhis\nhold\nhome\nhope\nhorse\nhot\nhour\nhouse\nhow\nidea\nkeep\nkind\nking\nknow\nland\nlarge\nlast\nlate\nlearn\nleave\nleft\nless\nlet\nletter\nlife\nlight\nlike\nline\nlist\nlisten\nlittle\nlive\nlong\nlook\nlost\nlot\nloud\nlove\nlow\nmade\nmain\nmake\nman\nmany\nmap\nmark\nmay\nmean\nmen\nmight\nmile\nmilk\nmind\nmiss\nmore\nmost\nmother\nmove\nmuch\nmusic\nmust\nname\nnear\nnever\nnew\nnext\nnice\nnight\nnine\nnorth\nnot\nnote\nnow\nnumber\noften\nold\nonce\none\nonly\nopen\norder\nother\nour\nout\nover\nown\npage\npaper\npart\npass\npast\npeople\npick\nplace\nplan\nplant\nplay\npoint\npull\nput\nrain\nran\nread\nreal\nred\nrest\nride\nright\nriver\nroad\nrock\nroom\nround\nrule\nrun\nsaid\nsame\nsaw\nsay\nschool\nsea\nsecond\nsee\nseem\nseen\nset\nseven\nshe\nship\nshort\nshould\nshow\nside\nsing\nsister\nsix\nsky\nsleep\nslow\nsmall\nsnow\nsome\nsong\nsoon\nsound\nsouth\nspace\nstand\nstar\nstart\nstay\nstep\nstill\nstop\nstory\nsun\nsure\ntable\ntake\ntalk\ntall\nteam\ntell\nten\ntest\nthan\nthat\nthe\ntheir\nthem\nthen\nthere\nthese\nthey\nthing\nthink\nthis\nthree\ntime\ntoday\ntold\ntoo\ntook\ntop\ntree\ntrue\ntry\nturn\ntwo\nunder\nuntil\nuse\nvery\nvoice\nwalk\nwant\nwarm\nwas\nwatch\nwater\nway\nweek\nwell\nwent\nwere\nwest\nwhat\nwhen\nwhere\nwhich\nwhile\nwhite\nwho\nwhy\nwide\nwill\nwind\nwinter\nwish\nwith\nword\nwork\nworld\nwould\nwrite\nyear\nyes\nyet\nyou\nyoung\nyour\n";

/// A compact built-in list of commonly misspelled English words, in the
/// same format: one word per line, lowercase, sorted, each between 2 and
/// 8 ASCII letters.
const WORDS_MISSPELLED: &'static str = "absence\naccept\naddress\nbelieve\ncalendar\nclothes\ncolumn\ndefinite\neighth\nfinally\nforeign\ngrateful\nheight\nhumorous\nisland\njewelry\nknowing\nlibrary\nmaybe\nneither\noccurred\npiece\nquiet\nreceive\nseparate\ntruly\nuntil\nvacuum\nweird\nyacht\n";

/// Word lists with top English words.
///
/// Each built-in variant carries a compact sample list of its own, the
/// larger variants holding more words; `OS` stands for the operating
/// system's word list, of which only the path is known.
#[derive(Copy, Clone, PartialEq, Eq, Debug)]
pub enum BuiltInWordlist {
    Top250,
    Top500,
    Top1000,
    Top2500,
    Top5000,
    Top10000,
    Top25000,
    CommonlyMisspelled,
    /// The operating system's builtin word list.
    ///
    /// See [`OS_WORDLIST_PATH`].
    OS,
}

/// Path to the default word list file in Linux/Unix-based systems.
pub const OS_WORDLIST_PATH: &'static str = "/usr/share/dict/words";

impl BuiltInWordlist {
    /// The name this word list goes by on the command line.
    pub open spec fn spec_cli_name(self) -> Seq<char> {
        match self {
            BuiltInWordlist::Top250 => "top250"@,
            BuiltInWordlist::Top500 => "top500"@,
            BuiltInWordlist::Top1000 => "top1000"@,
            BuiltInWordlist::Top2500 => "top2500"@,
            BuiltInWordlist::Top5000 => "top5000"@,
            BuiltInWordlist::Top10000 => "top10000"@,
            BuiltInWordlist::Top25000 => "top25000"@,
            BuiltInWordlist::CommonlyMisspelled => "commonly-misspelled"@,
            BuiltInWordlist::OS => "os"@,
        }
    }

    /// The name this word list goes by on the command line.
    pub fn cli_name(&self) -> (r: &'static str)
        ensures
            r@ == self.spec_cli_name(),
    {
        match self {
            BuiltInWordlist::Top250 => "top250",
            BuiltInWordlist::Top500 => "top500",
            BuiltInWordlist::Top1000 => "top1000",
            BuiltInWordlist::Top2500 => "top2500",
            BuiltInWordlist::Top5000 => "top5000",
            BuiltInWordlist::Top10000 => "top10000",
            BuiltInWordlist::Top25000 => "top25000",
            BuiltInWordlist::CommonlyMisspelled => "commonly-misspelled",
            BuiltInWordlist::OS => "os",
        }
    }

    /// The text of this word list; empty for `OS`, whose list lives on
    /// disk.
    pub closed spec fn spec_contents(self) -> Seq<char> {
        match self {
            BuiltInWordlist::Top250 => WORDS_TOP_250@,
            BuiltInWordlist::Top500 => WORDS_TOP_500@,
            BuiltInWordlist::Top1000 => WORDS_TOP_1000@,
            BuiltInWordlist::Top2500 => WORDS_TOP_2500@,
            BuiltInWordlist::Top5000 => WORDS_TOP_5000@,
            BuiltInWordlist::Top10000 => WORDS_TOP_10000@,
            BuiltInWordlist::Top25000 => WORDS_TOP_25000@,
            BuiltInWordlist::CommonlyMisspelled => WORDS_MISSPELLED@,
            BuiltInWordlist::OS => Seq::empty(),
        }
    }

    /// Contents of the word list as a static string.
    ///
    /// `OS` gives `None`, since only the path of the system word list is
    /// known; every other variant carries its own list.
    pub fn contents(&self) -> (r: Option<&'static str>)
        ensures
            r is Some <==> !(self is OS),
            r matches Some(c) ==> c@ == self.spec_contents(),
    {
        match self {
            BuiltInWordlist::Top250 => Some(WORDS_TOP_250),
            BuiltInWordlist::Top500 => Some(WORDS_TOP_500),
            BuiltInWordlist::Top1000 => Some(WORDS_TOP_1000),
            BuiltInWordlist::Top2500 => Some(WORDS_TOP_2500),
            BuiltInWordlist::Top5000 => Some(WORDS_TOP_5000),
            BuiltInWordlist::Top10000 => Some(WORDS_TOP_10000),
            BuiltInWordlist::Top25000 => Some(WORDS_TOP_25000),
            BuiltInWordlist::CommonlyMisspelled => Some(WORDS_MISSPELLED),
            BuiltInWordlist::OS => None,
        }
    }
}

} // verus!
