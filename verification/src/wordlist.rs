//! The built-in word list: five-letter words of Koine Greek with the
//! accented lemma each stands for, a short definition, whether it names a
//! person or place, and how common it is within its dictionary source.

use vstd::prelude::*;

use crate::text::lex_lt;
use crate::words::{
    checked_prefix, entries_wf, every_letter_used, is_letter, lemma_alphabet_is_the_letters,
    lemma_checked_list, lemma_five_letters, pool_indices, spec_admits, Entry, Pool, ALPHABET,
};

verus! {

fn entry(word: &str, display: &str, gloss: &str, is_proper: bool, rank: u16) -> (e: Entry)
    ensures
        e.word@ == word@,
        e.display@ == display@,
        e.gloss@ == gloss@,
        e.is_proper == is_proper,
        e.rank == rank,
{
    Entry {
        word: String::from_str(word),
        display: String::from_str(display),
        gloss: String::from_str(gloss),
        is_proper,
        rank,
    }
}

/// Every entry of the built-in list, in the order of their bare words. The
/// list is fit to play: five letters to every word, no word twice, and well
/// over a hundred words in every pool.
#[verifier::spinoff_prover]
#[verifier::rlimit(100)]
pub fn entries() -> (r: Vec<Entry>)
    ensures
        entries_wf(r@),
        r@.len() == 181,
        pool_indices(r@, Pool::All, 181).len() == 181,
        pool_indices(r@, Pool::NoProperNames, 181).len() == 164,
        pool_indices(r@, Pool::Common, 181).len() == 156,
        every_letter_used(r@),
{
    let r = vec![
        entry("αγαπη", "ἀγάπη", "love", false, 980),
        entry("αγγοσ", "ἄγγος", "vessel, container", false, 180),
        entry("αγιοσ", "ἅγιος", "holy · a saint", false, 975),
        entry("αγορα", "ἀγορά", "marketplace", false, 650),
        entry("αγροσ", "ἀγρός", "field, countryside", false, 880),
        entry("αινοσ", "αἶνος", "praise", false, 420),
        entry("αιτεω", "αἰτέω", "to ask, request", false, 955),
        entry("ακουω", "ἀκούω", "to hear · to listen, obey", false, 990),
        entry("ακρισ", "ἀκρίς", "locust", false, 540),
        entry("ακρον", "ἄκρον", "top, tip, end", false, 330),
        entry("αλλοσ", "ἄλλος", "other, another", false, 970),
        entry("αμνοσ", "ἀμνός", "lamb", false, 600),
        entry("ανθοσ", "ἄνθος", "flower", false, 350),
        entry("αννασ", "Ἅννας", "Annas, the high priest", true, 230),
        entry("απφια", "Ἀπφία", "Apphia", true, 20),
        entry("αρτοσ", "ἄρτος", "bread, a loaf", false, 930),
        entry("αρχων", "ἄρχων", "ruler, official", false, 860),
        entry("ασκοσ", "ἀσκός", "wineskin", false, 640),
        entry("αστηρ", "ἀστήρ", "star", false, 780),
        entry("βαθοσ", "βάθος", "depth", false, 560),
        entry("βαινω", "βαίνω", "to go, walk", false, 520),
        entry("βαλλω", "βάλλω", "to throw, put", false, 985),
        entry("βλεπω", "βλέπω", "to see, look", false, 985),
        entry("βοσκω", "βόσκω", "to feed, tend", false, 620),
        entry("βουλη", "βουλή", "counsel, plan, purpose", false, 700),
        entry("βροχη", "βροχή", "rain", false, 300),
        entry("γαμοσ", "γάμος", "wedding, marriage feast", false, 790),
        entry("γελαω", "γελάω", "to laugh", false, 220),
        entry("γενοσ", "γένος", "race, kind, family", false, 760),
        entry("γερων", "γέρων", "old man", false, 160),
        entry("γραφω", "γράφω", "to write", false, 990),
        entry("δακρυ", "δάκρυ", "a tear", false, 630),
        entry("δαυιδ", "Δαυίδ", "David", true, 950),
        entry("διψαω", "διψάω", "to thirst", false, 690),
        entry("διωκω", "διώκω", "to pursue · to persecute", false, 890),
        entry("δοκεω", "δοκέω", "think, suppose · to think; seem", false, 945),
        entry("δωρον", "δῶρον", "gift, offering", false, 800),
        entry("εθνοσ", "ἔθνος", "nation · the Gentiles", false, 960),
        entry("ειδον", "εἶδον", "I saw", false, 985),
        entry("εικων", "εἰκών", "image, likeness", false, 800),
        entry("εκτοσ", "ἕκτος", "sixth", false, 620),
        entry("ελεοσ", "ἔλεος", "mercy, compassion", false, 870),
        entry("ελπισ", "ἐλπίς", "hope", false, 900),
        entry("ενεκα", "ἕνεκα", "because of, for the sake of", false, 830),
        entry("εργον", "ἔργον", "work, deed", false, 955),
        entry("εσθιω", "ἐσθίω", "to eat", false, 970),
        entry("ζητεω", "ζητέω", "to seek, look for", false, 960),
        entry("ηλιασ", "Ἠλίας", "Elijah", true, 860),
        entry("ηλιοσ", "ἥλιος", "sun", false, 810),
        entry("ημερα", "ἡμέρα", "day", false, 990),
        entry("θυμοσ", "θυμός", "wrath, passion", false, 760),
        entry("ιακωβ", "Ἰακώβ", "Jacob", true, 880),
        entry("ιδιοσ", "ἴδιος", "one's own, private", false, 940),
        entry("ιεροσ", "ἱερός", "sacred, holy", false, 240),
        entry("ιουδα", "Ἰούδα", "Judah", true, 640),
        entry("ιπποσ", "ἵππος", "horse", false, 700),
        entry("ισαακ", "Ἰσαάκ", "Isaac", true, 760),
        entry("ιχθυσ", "ἰχθύς", "fish", false, 720),
        entry("ιωνασ", "Ἰωνᾶς", "Jonah", true, 600),
        entry("ιωσηφ", "Ἰωσήφ", "Joseph", true, 850),
        entry("κακοσ", "κακός", "bad, evil", false, 945),
        entry("καλεω", "καλέω", "to call, invite · to name", false, 980),
        entry("καλοσ", "καλός", "good, beautiful, fine", false, 965),
        entry("κερασ", "κέρας", "horn", false, 700),
        entry("κηποσ", "κῆπος", "garden", false, 520),
        entry("κλαιω", "κλαίω", "to weep, cry", false, 850),
        entry("κλειω", "κλείω", "to shut, lock", false, 720),
        entry("κλινη", "κλίνη", "bed, couch", false, 570),
        entry("κοποσ", "κόπος", "labour, trouble", false, 830),
        entry("κοπτω", "κόπτω", "to cut · to mourn", false, 620),
        entry("κραζω", "κράζω", "to cry out", false, 880),
        entry("κρεασ", "κρέας", "meat, flesh", false, 420),
        entry("κρινω", "κρίνω", "to judge, decide", false, 965),
        entry("κτιζω", "κτίζω", "to create", false, 730),
        entry("λαλεω", "λαλέω", "to speak, talk", false, 975),
        entry("λαμπω", "λάμπω", "to shine", false, 640),
        entry("λειπω", "λείπω", "to leave · to lack", false, 780),
        entry("λιθοσ", "λίθος", "stone", false, 880),
        entry("λιμοσ", "λιμός", "famine, hunger", false, 690),
        entry("λογοσ", "λόγος", "word · reason, account", false, 995),
        entry("λογχη", "λόγχη", "spear", false, 150),
        entry("λυκοσ", "λύκος", "wolf", false, 560),
        entry("λυπεω", "λυπέω", "to grieve, distress", false, 810),
        entry("μαρια", "Μαρία", "Mary", true, 940),
        entry("μεγασ", "μέγας", "great, large", false, 996),
        entry("μελλω", "μέλλω", "to be about to, intend", false, 960),
        entry("μελοσ", "μέλος", "limb, member", false, 800),
        entry("μεροσ", "μέρος", "part, share", false, 850),
        entry("μεσοσ", "μέσος", "middle, in the midst", false, 860),
        entry("μισεω", "μισέω", "to hate", false, 830),
        entry("μνημα", "μνῆμα", "tomb, grave", false, 640),
        entry("μορφη", "μορφή", "form", false, 400),
        entry("μυθοσ", "μῦθος", "myth, tale", false, 350),
        entry("μυρον", "μύρον", "ointment, perfume", false, 690),
        entry("μωροσ", "μωρός", "foolish", false, 700),
        entry("ναθαν", "Νάθαν", "Nathan", true, 80),
        entry("νησοσ", "νῆσος", "island", false, 600),
        entry("νικαω", "νικάω", "to conquer, overcome", false, 820),
        entry("νιπτω", "νίπτω", "to wash", false, 710),
        entry("νομοσ", "νόμος", "law", false, 992),
        entry("νοσοσ", "νόσος", "disease, illness", false, 660),
        entry("νοτοσ", "νότος", "south wind · the south", false, 510),
        entry("νυμφη", "νύμφη", "bride", false, 630),
        entry("ξενοσ", "ξένος", "stranger · foreign", false, 740),
        entry("ξηροσ", "ξηρός", "dry · dry land", false, 640),
        entry("ξυλον", "ξύλον", "wood · tree, cross", false, 770),
        entry("οδουσ", "ὀδούς", "tooth", false, 650),
        entry("οδυνη", "ὀδύνη", "pain, grief", false, 310),
        entry("οικεω", "οἰκέω", "to dwell", false, 620),
        entry("οικια", "οἰκία", "house, household", false, 965),
        entry("οικοσ", "οἶκος", "house, household", false, 968),
        entry("οινοσ", "οἶνος", "wine", false, 840),
        entry("ομνυω", "ὀμνύω", "to swear", false, 760),
        entry("ονομα", "ὄνομα", "name", false, 988),
        entry("οπισω", "ὀπίσω", "behind, after", false, 930),
        entry("ορκοσ", "ὅρκος", "oath", false, 610),
        entry("ορνισ", "ὄρνις", "bird, hen", false, 260),
        entry("οχλοσ", "ὄχλος", "crowd, multitude", false, 978),
        entry("οψιοσ", "ὄψιος", "late · evening", false, 580),
        entry("παθοσ", "πάθος", "passion, suffering", false, 380),
        entry("πασχα", "πάσχα", "Passover · the Passover lamb", false, 760),
        entry("πασχω", "πάσχω", "to suffer", false, 930),
        entry("πατηρ", "πατήρ", "father", false, 997),
        entry("πειθω", "πείθω", "to persuade · to trust, obey", false, 910),
        entry("πεινα", "πεῖνα", "hunger", false, 250),
        entry("πεμπω", "πέμπω", "to send", false, 940),
        entry("πεντε", "πέντε", "five", false, 920),
        entry("περαν", "πέραν", "beyond, across", false, 780),
        entry("πετρα", "πέτρα", "rock", false, 760),
        entry("πιαζω", "πιάζω", "to seize, catch", false, 700),
        entry("πιπτω", "πίπτω", "to fall", false, 955),
        entry("πλανη", "πλάνη", "error, deceit", false, 590),
        entry("πλουσ", "πλοῦς", "voyage", false, 280),
        entry("ποιεω", "ποιέω", "to do, make", false, 999),
        entry("πολισ", "πόλις", "city, town", false, 972),
        entry("πονοσ", "πόνος", "toil, pain", false, 540),
        entry("πωλεω", "πωλέω", "to sell", false, 710),
        entry("ραχηλ", "Ῥαχήλ", "Rachel", true, 60),
        entry("σαουλ", "Σαούλ", "Saul", true, 610),
        entry("σαρρα", "Σάρρα", "Sarah", true, 300),
        entry("σιγαω", "σιγάω", "to be silent", false, 580),
        entry("σιμων", "Σίμων", "Simon", true, 950),
        entry("σιτοσ", "σῖτος", "grain, wheat", false, 680),
        entry("σκηνη", "σκηνή", "tent, tabernacle", false, 750),
        entry("σοφια", "σοφία", "wisdom", false, 905),
        entry("σοφοσ", "σοφός", "wise", false, 820),
        entry("στηκω", "στήκω", "to stand firm", false, 640),
        entry("στολη", "στολή", "robe", false, 560),
        entry("στομα", "στόμα", "mouth", false, 915),
        entry("σωτηρ", "σωτήρ", "saviour", false, 880),
        entry("ταξισ", "τάξις", "order, rank", false, 560),
        entry("ταφοσ", "τάφος", "grave, tomb", false, 560),
        entry("ταχυσ", "ταχύς", "quick, swift", false, 640),
        entry("τελοσ", "τέλος", "end, goal · tax", false, 900),
        entry("τηρεω", "τηρέω", "to keep, guard · to observe", false, 960),
        entry("τικτω", "τίκτω", "to give birth", false, 760),
        entry("τιμαω", "τιμάω", "to honour", false, 790),
        entry("τιτοσ", "Τίτος", "Titus", true, 600),
        entry("τοξον", "τόξον", "bow", false, 120),
        entry("τοποσ", "τόπος", "place", false, 958),
        entry("τρεισ", "τρεῖς", "three", false, 950),
        entry("τρεχω", "τρέχω", "to run", false, 800),
        entry("υμνοσ", "ὕμνος", "hymn", false, 510),
        entry("υπνοσ", "ὕπνος", "sleep", false, 660),
        entry("φαινω", "φαίνω", "to shine · to appear", false, 900),
        entry("φατνη", "φάτνη", "manger, stall", false, 520),
        entry("φευγω", "φεύγω", "to flee", false, 850),
        entry("φηλιξ", "Φῆλιξ", "Felix, the governor", true, 450),
        entry("φιαλη", "φιάλη", "bowl", false, 590),
        entry("φιλεω", "φιλέω", "to love, kiss", false, 860),
        entry("φιλοσ", "φίλος", "friend · dear", false, 860),
        entry("φοβοσ", "φόβος", "fear, reverence", false, 930),
        entry("φονοσ", "φόνος", "murder", false, 650),
        entry("φρεαρ", "φρέαρ", "well, pit", false, 350),
        entry("φυλαξ", "φύλαξ", "guard, sentry", false, 560),
        entry("φυσισ", "φύσις", "nature", false, 810),
        entry("φωνεω", "φωνέω", "to call out, summon", false, 900),
        entry("χαιρω", "χαίρω", "to rejoice · greetings", false, 975),
        entry("χαρισ", "χάρις", "grace, favour · thanks", false, 983),
        entry("χιτων", "χιτών", "tunic", false, 610),
        entry("ψαλλω", "ψάλλω", "to sing praise", false, 560),
    ];
    proof {
        reveal_strlit("αγαπη");
        reveal_strlit("αγγοσ");
        reveal_strlit("αγιοσ");
        reveal_strlit("αγορα");
        reveal_strlit("αγροσ");
        reveal_strlit("αινοσ");
        reveal_strlit("αιτεω");
        reveal_strlit("ακουω");
        reveal_strlit("ακρισ");
        reveal_strlit("ακρον");
        reveal_strlit("αλλοσ");
        reveal_strlit("αμνοσ");
        reveal_strlit("ανθοσ");
        reveal_strlit("αννασ");
        reveal_strlit("απφια");
        reveal_strlit("αρτοσ");
        reveal_strlit("αρχων");
        reveal_strlit("ασκοσ");
        reveal_strlit("αστηρ");
        reveal_strlit("βαθοσ");
        reveal_strlit("βαινω");
        reveal_strlit("βαλλω");
        reveal_strlit("βλεπω");
        reveal_strlit("βοσκω");
        reveal_strlit("βουλη");
        reveal_strlit("βροχη");
        reveal_strlit("γαμοσ");
        reveal_strlit("γελαω");
        reveal_strlit("γενοσ");
        reveal_strlit("γερων");
        reveal_strlit("γραφω");
        reveal_strlit("δακρυ");
        reveal_strlit("δαυιδ");
        reveal_strlit("διψαω");
        reveal_strlit("διωκω");
        reveal_strlit("δοκεω");
        reveal_strlit("δωρον");
        reveal_strlit("εθνοσ");
        reveal_strlit("ειδον");
        reveal_strlit("εικων");
        reveal_strlit("εκτοσ");
        reveal_strlit("ελεοσ");
        reveal_strlit("ελπισ");
        reveal_strlit("ενεκα");
        reveal_strlit("εργον");
        reveal_strlit("εσθιω");
        reveal_strlit("ζητεω");
        reveal_strlit("ηλιασ");
        reveal_strlit("ηλιοσ");
        reveal_strlit("ημερα");
        reveal_strlit("θυμοσ");
        reveal_strlit("ιακωβ");
        reveal_strlit("ιδιοσ");
        reveal_strlit("ιεροσ");
        reveal_strlit("ιουδα");
        reveal_strlit("ιπποσ");
        reveal_strlit("ισαακ");
        reveal_strlit("ιχθυσ");
        reveal_strlit("ιωνασ");
        reveal_strlit("ιωσηφ");
        reveal_strlit("κακοσ");
        reveal_strlit("καλεω");
        reveal_strlit("καλοσ");
        reveal_strlit("κερασ");
        reveal_strlit("κηποσ");
        reveal_strlit("κλαιω");
        reveal_strlit("κλειω");
        reveal_strlit("κλινη");
        reveal_strlit("κοποσ");
        reveal_strlit("κοπτω");
        reveal_strlit("κραζω");
        reveal_strlit("κρεασ");
        reveal_strlit("κρινω");
        reveal_strlit("κτιζω");
        reveal_strlit("λαλεω");
        reveal_strlit("λαμπω");
        reveal_strlit("λειπω");
        reveal_strlit("λιθοσ");
        reveal_strlit("λιμοσ");
        reveal_strlit("λογοσ");
        reveal_strlit("λογχη");
        reveal_strlit("λυκοσ");
        reveal_strlit("λυπεω");
        reveal_strlit("μαρια");
        reveal_strlit("μεγασ");
        reveal_strlit("μελλω");
        reveal_strlit("μελοσ");
        reveal_strlit("μεροσ");
        reveal_strlit("μεσοσ");
        reveal_strlit("μισεω");
        reveal_strlit("μνημα");
        reveal_strlit("μορφη");
        reveal_strlit("μυθοσ");
        reveal_strlit("μυρον");
        reveal_strlit("μωροσ");
        reveal_strlit("ναθαν");
        reveal_strlit("νησοσ");
        reveal_strlit("νικαω");
        reveal_strlit("νιπτω");
        reveal_strlit("νομοσ");
        reveal_strlit("νοσοσ");
        reveal_strlit("νοτοσ");
        reveal_strlit("νυμφη");
        reveal_strlit("ξενοσ");
        reveal_strlit("ξηροσ");
        reveal_strlit("ξυλον");
        reveal_strlit("οδουσ");
        reveal_strlit("οδυνη");
        reveal_strlit("οικεω");
        reveal_strlit("οικια");
        reveal_strlit("οικοσ");
        reveal_strlit("οινοσ");
        reveal_strlit("ομνυω");
        reveal_strlit("ονομα");
        reveal_strlit("οπισω");
        reveal_strlit("ορκοσ");
        reveal_strlit("ορνισ");
        reveal_strlit("οχλοσ");
        reveal_strlit("οψιοσ");
        reveal_strlit("παθοσ");
        reveal_strlit("πασχα");
        reveal_strlit("πασχω");
        reveal_strlit("πατηρ");
        reveal_strlit("πειθω");
        reveal_strlit("πεινα");
        reveal_strlit("πεμπω");
        reveal_strlit("πεντε");
        reveal_strlit("περαν");
        reveal_strlit("πετρα");
        reveal_strlit("πιαζω");
        reveal_strlit("πιπτω");
        reveal_strlit("πλανη");
        reveal_strlit("πλουσ");
        reveal_strlit("ποιεω");
        reveal_strlit("πολισ");
        reveal_strlit("πονοσ");
        reveal_strlit("πωλεω");
        reveal_strlit("ραχηλ");
        reveal_strlit("σαουλ");
        reveal_strlit("σαρρα");
        reveal_strlit("σιγαω");
        reveal_strlit("σιμων");
        reveal_strlit("σιτοσ");
        reveal_strlit("σκηνη");
        reveal_strlit("σοφια");
        reveal_strlit("σοφοσ");
        reveal_strlit("στηκω");
        reveal_strlit("στολη");
        reveal_strlit("στομα");
        reveal_strlit("σωτηρ");
        reveal_strlit("ταξισ");
        reveal_strlit("ταφοσ");
        reveal_strlit("ταχυσ");
        reveal_strlit("τελοσ");
        reveal_strlit("τηρεω");
        reveal_strlit("τικτω");
        reveal_strlit("τιμαω");
        reveal_strlit("τιτοσ");
        reveal_strlit("τοξον");
        reveal_strlit("τοποσ");
        reveal_strlit("τρεισ");
        reveal_strlit("τρεχω");
        reveal_strlit("υμνοσ");
        reveal_strlit("υπνοσ");
        reveal_strlit("φαινω");
        reveal_strlit("φατνη");
        reveal_strlit("φευγω");
        reveal_strlit("φηλιξ");
        reveal_strlit("φιαλη");
        reveal_strlit("φιλεω");
        reveal_strlit("φιλοσ");
        reveal_strlit("φοβοσ");
        reveal_strlit("φονοσ");
        reveal_strlit("φρεαρ");
        reveal_strlit("φυλαξ");
        reveal_strlit("φυσισ");
        reveal_strlit("φωνεω");
        reveal_strlit("χαιρω");
        reveal_strlit("χαρισ");
        reveal_strlit("χιτων");
        reveal_strlit("ψαλλω");
        let s = r@;
        lemma_five_letters(s[0].word@);
        lemma_five_letters(s[1].word@);
        lemma_five_letters(s[2].word@);
        lemma_five_letters(s[3].word@);
        lemma_five_letters(s[4].word@);
        lemma_five_letters(s[5].word@);
        lemma_five_letters(s[6].word@);
        lemma_five_letters(s[7].word@);
        lemma_five_letters(s[8].word@);
        lemma_five_letters(s[9].word@);
        lemma_five_letters(s[10].word@);
        lemma_five_letters(s[11].word@);
        lemma_five_letters(s[12].word@);
        lemma_five_letters(s[13].word@);
        lemma_five_letters(s[14].word@);
        lemma_five_letters(s[15].word@);
        lemma_five_letters(s[16].word@);
        lemma_five_letters(s[17].word@);
        lemma_five_letters(s[18].word@);
        lemma_five_letters(s[19].word@);
        lemma_five_letters(s[20].word@);
        lemma_five_letters(s[21].word@);
        lemma_five_letters(s[22].word@);
        lemma_five_letters(s[23].word@);
        lemma_five_letters(s[24].word@);
        lemma_five_letters(s[25].word@);
        lemma_five_letters(s[26].word@);
        lemma_five_letters(s[27].word@);
        lemma_five_letters(s[28].word@);
        lemma_five_letters(s[29].word@);
        lemma_five_letters(s[30].word@);
        lemma_five_letters(s[31].word@);
        lemma_five_letters(s[32].word@);
        lemma_five_letters(s[33].word@);
        lemma_five_letters(s[34].word@);
        lemma_five_letters(s[35].word@);
        lemma_five_letters(s[36].word@);
        lemma_five_letters(s[37].word@);
        lemma_five_letters(s[38].word@);
        lemma_five_letters(s[39].word@);
        lemma_five_letters(s[40].word@);
        lemma_five_letters(s[41].word@);
        lemma_five_letters(s[42].word@);
        lemma_five_letters(s[43].word@);
        lemma_five_letters(s[44].word@);
        lemma_five_letters(s[45].word@);
        lemma_five_letters(s[46].word@);
        lemma_five_letters(s[47].word@);
        lemma_five_letters(s[48].word@);
        lemma_five_letters(s[49].word@);
        lemma_five_letters(s[50].word@);
        lemma_five_letters(s[51].word@);
        lemma_five_letters(s[52].word@);
        lemma_five_letters(s[53].word@);
        lemma_five_letters(s[54].word@);
        lemma_five_letters(s[55].word@);
        lemma_five_letters(s[56].word@);
        lemma_five_letters(s[57].word@);
        lemma_five_letters(s[58].word@);
        lemma_five_letters(s[59].word@);
        lemma_five_letters(s[60].word@);
        lemma_five_letters(s[61].word@);
        lemma_five_letters(s[62].word@);
        lemma_five_letters(s[63].word@);
        lemma_five_letters(s[64].word@);
        lemma_five_letters(s[65].word@);
        lemma_five_letters(s[66].word@);
        lemma_five_letters(s[67].word@);
        lemma_five_letters(s[68].word@);
        lemma_five_letters(s[69].word@);
        lemma_five_letters(s[70].word@);
        lemma_five_letters(s[71].word@);
        lemma_five_letters(s[72].word@);
        lemma_five_letters(s[73].word@);
        lemma_five_letters(s[74].word@);
        lemma_five_letters(s[75].word@);
        lemma_five_letters(s[76].word@);
        lemma_five_letters(s[77].word@);
        lemma_five_letters(s[78].word@);
        lemma_five_letters(s[79].word@);
        lemma_five_letters(s[80].word@);
        lemma_five_letters(s[81].word@);
        lemma_five_letters(s[82].word@);
        lemma_five_letters(s[83].word@);
        lemma_five_letters(s[84].word@);
        lemma_five_letters(s[85].word@);
        lemma_five_letters(s[86].word@);
        lemma_five_letters(s[87].word@);
        lemma_five_letters(s[88].word@);
        lemma_five_letters(s[89].word@);
        lemma_five_letters(s[90].word@);
        lemma_five_letters(s[91].word@);
        lemma_five_letters(s[92].word@);
        lemma_five_letters(s[93].word@);
        lemma_five_letters(s[94].word@);
        lemma_five_letters(s[95].word@);
        lemma_five_letters(s[96].word@);
        lemma_five_letters(s[97].word@);
        lemma_five_letters(s[98].word@);
        lemma_five_letters(s[99].word@);
        lemma_five_letters(s[100].word@);
        lemma_five_letters(s[101].word@);
        lemma_five_letters(s[102].word@);
        lemma_five_letters(s[103].word@);
        lemma_five_letters(s[104].word@);
        lemma_five_letters(s[105].word@);
        lemma_five_letters(s[106].word@);
        lemma_five_letters(s[107].word@);
        lemma_five_letters(s[108].word@);
        lemma_five_letters(s[109].word@);
        lemma_five_letters(s[110].word@);
        lemma_five_letters(s[111].word@);
        lemma_five_letters(s[112].word@);
        lemma_five_letters(s[113].word@);
        lemma_five_letters(s[114].word@);
        lemma_five_letters(s[115].word@);
        lemma_five_letters(s[116].word@);
        lemma_five_letters(s[117].word@);
        lemma_five_letters(s[118].word@);
        lemma_five_letters(s[119].word@);
        lemma_five_letters(s[120].word@);
        lemma_five_letters(s[121].word@);
        lemma_five_letters(s[122].word@);
        lemma_five_letters(s[123].word@);
        lemma_five_letters(s[124].word@);
        lemma_five_letters(s[125].word@);
        lemma_five_letters(s[126].word@);
        lemma_five_letters(s[127].word@);
        lemma_five_letters(s[128].word@);
        lemma_five_letters(s[129].word@);
        lemma_five_letters(s[130].word@);
        lemma_five_letters(s[131].word@);
        lemma_five_letters(s[132].word@);
        lemma_five_letters(s[133].word@);
        lemma_five_letters(s[134].word@);
        lemma_five_letters(s[135].word@);
        lemma_five_letters(s[136].word@);
        lemma_five_letters(s[137].word@);
        lemma_five_letters(s[138].word@);
        lemma_five_letters(s[139].word@);
        lemma_five_letters(s[140].word@);
        lemma_five_letters(s[141].word@);
        lemma_five_letters(s[142].word@);
        lemma_five_letters(s[143].word@);
        lemma_five_letters(s[144].word@);
        lemma_five_letters(s[145].word@);
        lemma_five_letters(s[146].word@);
        lemma_five_letters(s[147].word@);
        lemma_five_letters(s[148].word@);
        lemma_five_letters(s[149].word@);
        lemma_five_letters(s[150].word@);
        lemma_five_letters(s[151].word@);
        lemma_five_letters(s[152].word@);
        lemma_five_letters(s[153].word@);
        lemma_five_letters(s[154].word@);
        lemma_five_letters(s[155].word@);
        lemma_five_letters(s[156].word@);
        lemma_five_letters(s[157].word@);
        lemma_five_letters(s[158].word@);
        lemma_five_letters(s[159].word@);
        lemma_five_letters(s[160].word@);
        lemma_five_letters(s[161].word@);
        lemma_five_letters(s[162].word@);
        lemma_five_letters(s[163].word@);
        lemma_five_letters(s[164].word@);
        lemma_five_letters(s[165].word@);
        lemma_five_letters(s[166].word@);
        lemma_five_letters(s[167].word@);
        lemma_five_letters(s[168].word@);
        lemma_five_letters(s[169].word@);
        lemma_five_letters(s[170].word@);
        lemma_five_letters(s[171].word@);
        lemma_five_letters(s[172].word@);
        lemma_five_letters(s[173].word@);
        lemma_five_letters(s[174].word@);
        lemma_five_letters(s[175].word@);
        lemma_five_letters(s[176].word@);
        lemma_five_letters(s[177].word@);
        lemma_five_letters(s[178].word@);
        lemma_five_letters(s[179].word@);
        lemma_five_letters(s[180].word@);
        assert(lex_lt(s[0].word@, s[1].word@)) by { reveal_with_fuel(lex_lt, 6); }
        assert(lex_lt(s[1].word@, s[2].word@)) by { reveal_with_fuel(lex_lt, 6); }
        assert(lex_lt(s[2].word@, s[3].word@)) by { reveal_with_fuel(lex_lt, 6); }
        assert(lex_lt(s[3].word@, s[4].word@)) by { reveal_with_fuel(lex_lt, 6); }
        assert(lex_lt(s[4].word@, s[5].word@)) by { reveal_with_fuel(lex_lt, 6); }
        assert(lex_lt(s[5].word@, s[6].word@)) by { reveal_with_fuel(lex_lt, 6); }
        assert(lex_lt(s[6].word@, s[7].word@)) by { reveal_with_fuel(lex_lt, 6); }
        assert(lex_lt(s[7].word@, s[8].word@)) by { reveal_with_fuel(lex_lt, 6); }
        assert(lex_lt(s[8].word@, s[9].word@)) by { reveal_with_fuel(lex_lt, 6); }
        assert(lex_lt(s[9].word@, s[10].word@)) by { reveal_with_fuel(lex_lt, 6); }
        assert(lex_lt(s[10].word@, s[11].word@)) by { reveal_with_fuel(lex_lt, 6); }
        assert(lex_lt(s[11].word@, s[12].word@)) by { reveal_with_fuel(lex_lt, 6); }
        assert(lex_lt(s[12].word@, s[13].word@)) by { reveal_with_fuel(lex_lt, 6); }
        assert(lex_lt(s[13].word@, s[14].word@)) by { reveal_with_fuel(lex_lt, 6); }
        assert(lex_lt(s[14].word@, s[15].word@)) by { reveal_with_fuel(lex_lt, 6); }
        assert(lex_lt(s[15].word@, s[16].word@)) by { reveal_with_fuel(lex_lt, 6); }
        assert(lex_lt(s[16].word@, s[17].word@)) by { reveal_with_fuel(lex_lt, 6); }
        assert(lex_lt(s[17].word@, s[18].word@)) by { reveal_with_fuel(lex_lt, 6); }
        assert(lex_lt(s[18].word@, s[19].word@)) by { reveal_with_fuel(lex_lt, 6); }
        assert(lex_lt(s[19].word@, s[20].word@)) by { reveal_with_fuel(lex_lt, 6); }
        assert(lex_lt(s[20].word@, s[21].word@)) by { reveal_with_fuel(lex_lt, 6); }
        assert(lex_lt(s[21].word@, s[22].word@)) by { reveal_with_fuel(lex_lt, 6); }
        assert(lex_lt(s[22].word@, s[23].word@)) by { reveal_with_fuel(lex_lt, 6); }
        assert(lex_lt(s[23].word@, s[24].word@)) by { reveal_with_fuel(lex_lt, 6); }
        assert(lex_lt(s[24].word@, s[25].word@)) by { reveal_with_fuel(lex_lt, 6); }
        assert(lex_lt(s[25].word@, s[26].word@)) by { reveal_with_fuel(lex_lt, 6); }
        assert(lex_lt(s[26].word@, s[27].word@)) by { reveal_with_fuel(lex_lt, 6); }
        assert(lex_lt(s[27].word@, s[28].word@)) by { reveal_with_fuel(lex_lt, 6); }
        assert(lex_lt(s[28].word@, s[29].word@)) by { reveal_with_fuel(lex_lt, 6); }
        assert(lex_lt(s[29].word@, s[30].word@)) by { reveal_with_fuel(lex_lt, 6); }
        assert(lex_lt(s[30].word@, s[31].word@)) by { reveal_with_fuel(lex_lt, 6); }
        assert(lex_lt(s[31].word@, s[32].word@)) by { reveal_with_fuel(lex_lt, 6); }
        assert(lex_lt(s[32].word@, s[33].word@)) by { reveal_with_fuel(lex_lt, 6); }
        assert(lex_lt(s[33].word@, s[34].word@)) by { reveal_with_fuel(lex_lt, 6); }
        assert(lex_lt(s[34].word@, s[35].word@)) by { reveal_with_fuel(lex_lt, 6); }
        assert(lex_lt(s[35].word@, s[36].word@)) by { reveal_with_fuel(lex_lt, 6); }
        assert(lex_lt(s[36].word@, s[37].word@)) by { reveal_with_fuel(lex_lt, 6); }
        assert(lex_lt(s[37].word@, s[38].word@)) by { reveal_with_fuel(lex_lt, 6); }
        assert(lex_lt(s[38].word@, s[39].word@)) by { reveal_with_fuel(lex_lt, 6); }
        assert(lex_lt(s[39].word@, s[40].word@)) by { reveal_with_fuel(lex_lt, 6); }
        assert(lex_lt(s[40].word@, s[41].word@)) by { reveal_with_fuel(lex_lt, 6); }
        assert(lex_lt(s[41].word@, s[42].word@)) by { reveal_with_fuel(lex_lt, 6); }
        assert(lex_lt(s[42].word@, s[43].word@)) by { reveal_with_fuel(lex_lt, 6); }
        assert(lex_lt(s[43].word@, s[44].word@)) by { reveal_with_fuel(lex_lt, 6); }
        assert(lex_lt(s[44].word@, s[45].word@)) by { reveal_with_fuel(lex_lt, 6); }
        assert(lex_lt(s[45].word@, s[46].word@)) by { reveal_with_fuel(lex_lt, 6); }
        assert(lex_lt(s[46].word@, s[47].word@)) by { reveal_with_fuel(lex_lt, 6); }
        assert(lex_lt(s[47].word@, s[48].word@)) by { reveal_with_fuel(lex_lt, 6); }
        assert(lex_lt(s[48].word@, s[49].word@)) by { reveal_with_fuel(lex_lt, 6); }
        assert(lex_lt(s[49].word@, s[50].word@)) by { reveal_with_fuel(lex_lt, 6); }
        assert(lex_lt(s[50].word@, s[51].word@)) by { reveal_with_fuel(lex_lt, 6); }
        assert(lex_lt(s[51].word@, s[52].word@)) by { reveal_with_fuel(lex_lt, 6); }
        assert(lex_lt(s[52].word@, s[53].word@)) by { reveal_with_fuel(lex_lt, 6); }
        assert(lex_lt(s[53].word@, s[54].word@)) by { reveal_with_fuel(lex_lt, 6); }
        assert(lex_lt(s[54].word@, s[55].word@)) by { reveal_with_fuel(lex_lt, 6); }
        assert(lex_lt(s[55].word@, s[56].word@)) by { reveal_with_fuel(lex_lt, 6); }
        assert(lex_lt(s[56].word@, s[57].word@)) by { reveal_with_fuel(lex_lt, 6); }
        assert(lex_lt(s[57].word@, s[58].word@)) by { reveal_with_fuel(lex_lt, 6); }
        assert(lex_lt(s[58].word@, s[59].word@)) by { reveal_with_fuel(lex_lt, 6); }
        assert(lex_lt(s[59].word@, s[60].word@)) by { reveal_with_fuel(lex_lt, 6); }
        assert(lex_lt(s[60].word@, s[61].word@)) by { reveal_with_fuel(lex_lt, 6); }
        assert(lex_lt(s[61].word@, s[62].word@)) by { reveal_with_fuel(lex_lt, 6); }
        assert(lex_lt(s[62].word@, s[63].word@)) by { reveal_with_fuel(lex_lt, 6); }
        assert(lex_lt(s[63].word@, s[64].word@)) by { reveal_with_fuel(lex_lt, 6); }
        assert(lex_lt(s[64].word@, s[65].word@)) by { reveal_with_fuel(lex_lt, 6); }
        assert(lex_lt(s[65].word@, s[66].word@)) by { reveal_with_fuel(lex_lt, 6); }
        assert(lex_lt(s[66].word@, s[67].word@)) by { reveal_with_fuel(lex_lt, 6); }
        assert(lex_lt(s[67].word@, s[68].word@)) by { reveal_with_fuel(lex_lt, 6); }
        assert(lex_lt(s[68].word@, s[69].word@)) by { reveal_with_fuel(lex_lt, 6); }
        assert(lex_lt(s[69].word@, s[70].word@)) by { reveal_with_fuel(lex_lt, 6); }
        assert(lex_lt(s[70].word@, s[71].word@)) by { reveal_with_fuel(lex_lt, 6); }
        assert(lex_lt(s[71].word@, s[72].word@)) by { reveal_with_fuel(lex_lt, 6); }
        assert(lex_lt(s[72].word@, s[73].word@)) by { reveal_with_fuel(lex_lt, 6); }
        assert(lex_lt(s[73].word@, s[74].word@)) by { reveal_with_fuel(lex_lt, 6); }
        assert(lex_lt(s[74].word@, s[75].word@)) by { reveal_with_fuel(lex_lt, 6); }
        assert(lex_lt(s[75].word@, s[76].word@)) by { reveal_with_fuel(lex_lt, 6); }
        assert(lex_lt(s[76].word@, s[77].word@)) by { reveal_with_fuel(lex_lt, 6); }
        assert(lex_lt(s[77].word@, s[78].word@)) by { reveal_with_fuel(lex_lt, 6); }
        assert(lex_lt(s[78].word@, s[79].word@)) by { reveal_with_fuel(lex_lt, 6); }
        assert(lex_lt(s[79].word@, s[80].word@)) by { reveal_with_fuel(lex_lt, 6); }
        assert(lex_lt(s[80].word@, s[81].word@)) by { reveal_with_fuel(lex_lt, 6); }
        assert(lex_lt(s[81].word@, s[82].word@)) by { reveal_with_fuel(lex_lt, 6); }
        assert(lex_lt(s[82].word@, s[83].word@)) by { reveal_with_fuel(lex_lt, 6); }
        assert(lex_lt(s[83].word@, s[84].word@)) by { reveal_with_fuel(lex_lt, 6); }
        assert(lex_lt(s[84].word@, s[85].word@)) by { reveal_with_fuel(lex_lt, 6); }
        assert(lex_lt(s[85].word@, s[86].word@)) by { reveal_with_fuel(lex_lt, 6); }
        assert(lex_lt(s[86].word@, s[87].word@)) by { reveal_with_fuel(lex_lt, 6); }
        assert(lex_lt(s[87].word@, s[88].word@)) by { reveal_with_fuel(lex_lt, 6); }
        assert(lex_lt(s[88].word@, s[89].word@)) by { reveal_with_fuel(lex_lt, 6); }
        assert(lex_lt(s[89].word@, s[90].word@)) by { reveal_with_fuel(lex_lt, 6); }
        assert(lex_lt(s[90].word@, s[91].word@)) by { reveal_with_fuel(lex_lt, 6); }
        assert(lex_lt(s[91].word@, s[92].word@)) by { reveal_with_fuel(lex_lt, 6); }
        assert(lex_lt(s[92].word@, s[93].word@)) by { reveal_with_fuel(lex_lt, 6); }
        assert(lex_lt(s[93].word@, s[94].word@)) by { reveal_with_fuel(lex_lt, 6); }
        assert(lex_lt(s[94].word@, s[95].word@)) by { reveal_with_fuel(lex_lt, 6); }
        assert(lex_lt(s[95].word@, s[96].word@)) by { reveal_with_fuel(lex_lt, 6); }
        assert(lex_lt(s[96].word@, s[97].word@)) by { reveal_with_fuel(lex_lt, 6); }
        assert(lex_lt(s[97].word@, s[98].word@)) by { reveal_with_fuel(lex_lt, 6); }
        assert(lex_lt(s[98].word@, s[99].word@)) by { reveal_with_fuel(lex_lt, 6); }
        assert(lex_lt(s[99].word@, s[100].word@)) by { reveal_with_fuel(lex_lt, 6); }
        assert(lex_lt(s[100].word@, s[101].word@)) by { reveal_with_fuel(lex_lt, 6); }
        assert(lex_lt(s[101].word@, s[102].word@)) by { reveal_with_fuel(lex_lt, 6); }
        assert(lex_lt(s[102].word@, s[103].word@)) by { reveal_with_fuel(lex_lt, 6); }
        assert(lex_lt(s[103].word@, s[104].word@)) by { reveal_with_fuel(lex_lt, 6); }
        assert(lex_lt(s[104].word@, s[105].word@)) by { reveal_with_fuel(lex_lt, 6); }
        assert(lex_lt(s[105].word@, s[106].word@)) by { reveal_with_fuel(lex_lt, 6); }
        assert(lex_lt(s[106].word@, s[107].word@)) by { reveal_with_fuel(lex_lt, 6); }
        assert(lex_lt(s[107].word@, s[108].word@)) by { reveal_with_fuel(lex_lt, 6); }
        assert(lex_lt(s[108].word@, s[109].word@)) by { reveal_with_fuel(lex_lt, 6); }
        assert(lex_lt(s[109].word@, s[110].word@)) by { reveal_with_fuel(lex_lt, 6); }
        assert(lex_lt(s[110].word@, s[111].word@)) by { reveal_with_fuel(lex_lt, 6); }
        assert(lex_lt(s[111].word@, s[112].word@)) by { reveal_with_fuel(lex_lt, 6); }
        assert(lex_lt(s[112].word@, s[113].word@)) by { reveal_with_fuel(lex_lt, 6); }
        assert(lex_lt(s[113].word@, s[114].word@)) by { reveal_with_fuel(lex_lt, 6); }
        assert(lex_lt(s[114].word@, s[115].word@)) by { reveal_with_fuel(lex_lt, 6); }
        assert(lex_lt(s[115].word@, s[116].word@)) by { reveal_with_fuel(lex_lt, 6); }
        assert(lex_lt(s[116].word@, s[117].word@)) by { reveal_with_fuel(lex_lt, 6); }
        assert(lex_lt(s[117].word@, s[118].word@)) by { reveal_with_fuel(lex_lt, 6); }
        assert(lex_lt(s[118].word@, s[119].word@)) by { reveal_with_fuel(lex_lt, 6); }
        assert(lex_lt(s[119].word@, s[120].word@)) by { reveal_with_fuel(lex_lt, 6); }
        assert(lex_lt(s[120].word@, s[121].word@)) by { reveal_with_fuel(lex_lt, 6); }
        assert(lex_lt(s[121].word@, s[122].word@)) by { reveal_with_fuel(lex_lt, 6); }
        assert(lex_lt(s[122].word@, s[123].word@)) by { reveal_with_fuel(lex_lt, 6); }
        assert(lex_lt(s[123].word@, s[124].word@)) by { reveal_with_fuel(lex_lt, 6); }
        assert(lex_lt(s[124].word@, s[125].word@)) by { reveal_with_fuel(lex_lt, 6); }
        assert(lex_lt(s[125].word@, s[126].word@)) by { reveal_with_fuel(lex_lt, 6); }
        assert(lex_lt(s[126].word@, s[127].word@)) by { reveal_with_fuel(lex_lt, 6); }
        assert(lex_lt(s[127].word@, s[128].word@)) by { reveal_with_fuel(lex_lt, 6); }
        assert(lex_lt(s[128].word@, s[129].word@)) by { reveal_with_fuel(lex_lt, 6); }
        assert(lex_lt(s[129].word@, s[130].word@)) by { reveal_with_fuel(lex_lt, 6); }
        assert(lex_lt(s[130].word@, s[131].word@)) by { reveal_with_fuel(lex_lt, 6); }
        assert(lex_lt(s[131].word@, s[132].word@)) by { reveal_with_fuel(lex_lt, 6); }
        assert(lex_lt(s[132].word@, s[133].word@)) by { reveal_with_fuel(lex_lt, 6); }
        assert(lex_lt(s[133].word@, s[134].word@)) by { reveal_with_fuel(lex_lt, 6); }
        assert(lex_lt(s[134].word@, s[135].word@)) by { reveal_with_fuel(lex_lt, 6); }
        assert(lex_lt(s[135].word@, s[136].word@)) by { reveal_with_fuel(lex_lt, 6); }
        assert(lex_lt(s[136].word@, s[137].word@)) by { reveal_with_fuel(lex_lt, 6); }
        assert(lex_lt(s[137].word@, s[138].word@)) by { reveal_with_fuel(lex_lt, 6); }
        assert(lex_lt(s[138].word@, s[139].word@)) by { reveal_with_fuel(lex_lt, 6); }
        assert(lex_lt(s[139].word@, s[140].word@)) by { reveal_with_fuel(lex_lt, 6); }
        assert(lex_lt(s[140].word@, s[141].word@)) by { reveal_with_fuel(lex_lt, 6); }
        assert(lex_lt(s[141].word@, s[142].word@)) by { reveal_with_fuel(lex_lt, 6); }
        assert(lex_lt(s[142].word@, s[143].word@)) by { reveal_with_fuel(lex_lt, 6); }
        assert(lex_lt(s[143].word@, s[144].word@)) by { reveal_with_fuel(lex_lt, 6); }
        assert(lex_lt(s[144].word@, s[145].word@)) by { reveal_with_fuel(lex_lt, 6); }
        assert(lex_lt(s[145].word@, s[146].word@)) by { reveal_with_fuel(lex_lt, 6); }
        assert(lex_lt(s[146].word@, s[147].word@)) by { reveal_with_fuel(lex_lt, 6); }
        assert(lex_lt(s[147].word@, s[148].word@)) by { reveal_with_fuel(lex_lt, 6); }
        assert(lex_lt(s[148].word@, s[149].word@)) by { reveal_with_fuel(lex_lt, 6); }
        assert(lex_lt(s[149].word@, s[150].word@)) by { reveal_with_fuel(lex_lt, 6); }
        assert(lex_lt(s[150].word@, s[151].word@)) by { reveal_with_fuel(lex_lt, 6); }
        assert(lex_lt(s[151].word@, s[152].word@)) by { reveal_with_fuel(lex_lt, 6); }
        assert(lex_lt(s[152].word@, s[153].word@)) by { reveal_with_fuel(lex_lt, 6); }
        assert(lex_lt(s[153].word@, s[154].word@)) by { reveal_with_fuel(lex_lt, 6); }
        assert(lex_lt(s[154].word@, s[155].word@)) by { reveal_with_fuel(lex_lt, 6); }
        assert(lex_lt(s[155].word@, s[156].word@)) by { reveal_with_fuel(lex_lt, 6); }
        assert(lex_lt(s[156].word@, s[157].word@)) by { reveal_with_fuel(lex_lt, 6); }
        assert(lex_lt(s[157].word@, s[158].word@)) by { reveal_with_fuel(lex_lt, 6); }
        assert(lex_lt(s[158].word@, s[159].word@)) by { reveal_with_fuel(lex_lt, 6); }
        assert(lex_lt(s[159].word@, s[160].word@)) by { reveal_with_fuel(lex_lt, 6); }
        assert(lex_lt(s[160].word@, s[161].word@)) by { reveal_with_fuel(lex_lt, 6); }
        assert(lex_lt(s[161].word@, s[162].word@)) by { reveal_with_fuel(lex_lt, 6); }
        assert(lex_lt(s[162].word@, s[163].word@)) by { reveal_with_fuel(lex_lt, 6); }
        assert(lex_lt(s[163].word@, s[164].word@)) by { reveal_with_fuel(lex_lt, 6); }
        assert(lex_lt(s[164].word@, s[165].word@)) by { reveal_with_fuel(lex_lt, 6); }
        assert(lex_lt(s[165].word@, s[166].word@)) by { reveal_with_fuel(lex_lt, 6); }
        assert(lex_lt(s[166].word@, s[167].word@)) by { reveal_with_fuel(lex_lt, 6); }
        assert(lex_lt(s[167].word@, s[168].word@)) by { reveal_with_fuel(lex_lt, 6); }
        assert(lex_lt(s[168].word@, s[169].word@)) by { reveal_with_fuel(lex_lt, 6); }
        assert(lex_lt(s[169].word@, s[170].word@)) by { reveal_with_fuel(lex_lt, 6); }
        assert(lex_lt(s[170].word@, s[171].word@)) by { reveal_with_fuel(lex_lt, 6); }
        assert(lex_lt(s[171].word@, s[172].word@)) by { reveal_with_fuel(lex_lt, 6); }
        assert(lex_lt(s[172].word@, s[173].word@)) by { reveal_with_fuel(lex_lt, 6); }
        assert(lex_lt(s[173].word@, s[174].word@)) by { reveal_with_fuel(lex_lt, 6); }
        assert(lex_lt(s[174].word@, s[175].word@)) by { reveal_with_fuel(lex_lt, 6); }
        assert(lex_lt(s[175].word@, s[176].word@)) by { reveal_with_fuel(lex_lt, 6); }
        assert(lex_lt(s[176].word@, s[177].word@)) by { reveal_with_fuel(lex_lt, 6); }
        assert(lex_lt(s[177].word@, s[178].word@)) by { reveal_with_fuel(lex_lt, 6); }
        assert(lex_lt(s[178].word@, s[179].word@)) by { reveal_with_fuel(lex_lt, 6); }
        assert(lex_lt(s[179].word@, s[180].word@)) by { reveal_with_fuel(lex_lt, 6); }
        assert(checked_prefix(s, 0));
        assert(checked_prefix(s, 1));
        assert(checked_prefix(s, 2));
        assert(checked_prefix(s, 3));
        assert(checked_prefix(s, 4));
        assert(checked_prefix(s, 5));
        assert(checked_prefix(s, 6));
        assert(checked_prefix(s, 7));
        assert(checked_prefix(s, 8));
        assert(checked_prefix(s, 9));
        assert(checked_prefix(s, 10));
        assert(checked_prefix(s, 11));
        assert(checked_prefix(s, 12));
        assert(checked_prefix(s, 13));
        assert(checked_prefix(s, 14));
        assert(checked_prefix(s, 15));
        assert(checked_prefix(s, 16));
        assert(checked_prefix(s, 17));
        assert(checked_prefix(s, 18));
        assert(checked_prefix(s, 19));
        assert(checked_prefix(s, 20));
        assert(checked_prefix(s, 21));
        assert(checked_prefix(s, 22));
        assert(checked_prefix(s, 23));
        assert(checked_prefix(s, 24));
        assert(checked_prefix(s, 25));
        assert(checked_prefix(s, 26));
        assert(checked_prefix(s, 27));
        assert(checked_prefix(s, 28));
        assert(checked_prefix(s, 29));
        assert(checked_prefix(s, 30));
        assert(checked_prefix(s, 31));
        assert(checked_prefix(s, 32));
        assert(checked_prefix(s, 33));
        assert(checked_prefix(s, 34));
        assert(checked_prefix(s, 35));
        assert(checked_prefix(s, 36));
        assert(checked_prefix(s, 37));
        assert(checked_prefix(s, 38));
        assert(checked_prefix(s, 39));
        assert(checked_prefix(s, 40));
        assert(checked_prefix(s, 41));
        assert(checked_prefix(s, 42));
        assert(checked_prefix(s, 43));
        assert(checked_prefix(s, 44));
        assert(checked_prefix(s, 45));
        assert(checked_prefix(s, 46));
        assert(checked_prefix(s, 47));
        assert(checked_prefix(s, 48));
        assert(checked_prefix(s, 49));
        assert(checked_prefix(s, 50));
        assert(checked_prefix(s, 51));
        assert(checked_prefix(s, 52));
        assert(checked_prefix(s, 53));
        assert(checked_prefix(s, 54));
        assert(checked_prefix(s, 55));
        assert(checked_prefix(s, 56));
        assert(checked_prefix(s, 57));
        assert(checked_prefix(s, 58));
        assert(checked_prefix(s, 59));
        assert(checked_prefix(s, 60));
        assert(checked_prefix(s, 61));
        assert(checked_prefix(s, 62));
        assert(checked_prefix(s, 63));
        assert(checked_prefix(s, 64));
        assert(checked_prefix(s, 65));
        assert(checked_prefix(s, 66));
        assert(checked_prefix(s, 67));
        assert(checked_prefix(s, 68));
        assert(checked_prefix(s, 69));
        assert(checked_prefix(s, 70));
        assert(checked_prefix(s, 71));
        assert(checked_prefix(s, 72));
        assert(checked_prefix(s, 73));
        assert(checked_prefix(s, 74));
        assert(checked_prefix(s, 75));
        assert(checked_prefix(s, 76));
        assert(checked_prefix(s, 77));
        assert(checked_prefix(s, 78));
        assert(checked_prefix(s, 79));
        assert(checked_prefix(s, 80));
        assert(checked_prefix(s, 81));
        assert(checked_prefix(s, 82));
        assert(checked_prefix(s, 83));
        assert(checked_prefix(s, 84));
        assert(checked_prefix(s, 85));
        assert(checked_prefix(s, 86));
        assert(checked_prefix(s, 87));
        assert(checked_prefix(s, 88));
        assert(checked_prefix(s, 89));
        assert(checked_prefix(s, 90));
        assert(checked_prefix(s, 91));
        assert(checked_prefix(s, 92));
        assert(checked_prefix(s, 93));
        assert(checked_prefix(s, 94));
        assert(checked_prefix(s, 95));
        assert(checked_prefix(s, 96));
        assert(checked_prefix(s, 97));
        assert(checked_prefix(s, 98));
        assert(checked_prefix(s, 99));
        assert(checked_prefix(s, 100));
        assert(checked_prefix(s, 101));
        assert(checked_prefix(s, 102));
        assert(checked_prefix(s, 103));
        assert(checked_prefix(s, 104));
        assert(checked_prefix(s, 105));
        assert(checked_prefix(s, 106));
        assert(checked_prefix(s, 107));
        assert(checked_prefix(s, 108));
        assert(checked_prefix(s, 109));
        assert(checked_prefix(s, 110));
        assert(checked_prefix(s, 111));
        assert(checked_prefix(s, 112));
        assert(checked_prefix(s, 113));
        assert(checked_prefix(s, 114));
        assert(checked_prefix(s, 115));
        assert(checked_prefix(s, 116));
        assert(checked_prefix(s, 117));
        assert(checked_prefix(s, 118));
        assert(checked_prefix(s, 119));
        assert(checked_prefix(s, 120));
        assert(checked_prefix(s, 121));
        assert(checked_prefix(s, 122));
        assert(checked_prefix(s, 123));
        assert(checked_prefix(s, 124));
        assert(checked_prefix(s, 125));
        assert(checked_prefix(s, 126));
        assert(checked_prefix(s, 127));
        assert(checked_prefix(s, 128));
        assert(checked_prefix(s, 129));
        assert(checked_prefix(s, 130));
        assert(checked_prefix(s, 131));
        assert(checked_prefix(s, 132));
        assert(checked_prefix(s, 133));
        assert(checked_prefix(s, 134));
        assert(checked_prefix(s, 135));
        assert(checked_prefix(s, 136));
        assert(checked_prefix(s, 137));
        assert(checked_prefix(s, 138));
        assert(checked_prefix(s, 139));
        assert(checked_prefix(s, 140));
        assert(checked_prefix(s, 141));
        assert(checked_prefix(s, 142));
        assert(checked_prefix(s, 143));
        assert(checked_prefix(s, 144));
        assert(checked_prefix(s, 145));
        assert(checked_prefix(s, 146));
        assert(checked_prefix(s, 147));
        assert(checked_prefix(s, 148));
        assert(checked_prefix(s, 149));
        assert(checked_prefix(s, 150));
        assert(checked_prefix(s, 151));
        assert(checked_prefix(s, 152));
        assert(checked_prefix(s, 153));
        assert(checked_prefix(s, 154));
        assert(checked_prefix(s, 155));
        assert(checked_prefix(s, 156));
        assert(checked_prefix(s, 157));
        assert(checked_prefix(s, 158));
        assert(checked_prefix(s, 159));
        assert(checked_prefix(s, 160));
        assert(checked_prefix(s, 161));
        assert(checked_prefix(s, 162));
        assert(checked_prefix(s, 163));
        assert(checked_prefix(s, 164));
        assert(checked_prefix(s, 165));
        assert(checked_prefix(s, 166));
        assert(checked_prefix(s, 167));
        assert(checked_prefix(s, 168));
        assert(checked_prefix(s, 169));
        assert(checked_prefix(s, 170));
        assert(checked_prefix(s, 171));
        assert(checked_prefix(s, 172));
        assert(checked_prefix(s, 173));
        assert(checked_prefix(s, 174));
        assert(checked_prefix(s, 175));
        assert(checked_prefix(s, 176));
        assert(checked_prefix(s, 177));
        assert(checked_prefix(s, 178));
        assert(checked_prefix(s, 179));
        assert(checked_prefix(s, 180));
        assert(checked_prefix(s, 181));
        assert(spec_admits(Pool::All, s[0]));
        assert(spec_admits(Pool::NoProperNames, s[0]));
        assert(spec_admits(Pool::Common, s[0]));
        lemma_checked_list(s);
        lemma_all_pool(s, 181);
        lemma_names_pool(s);
        lemma_common_pool(s);
        lemma_every_letter_used(s);
    }
    r
}

/// Every entry counts in the pool of all words.
proof fn lemma_all_pool(s: Seq<Entry>, n: nat)
    requires
        n <= s.len(),
    ensures
        pool_indices(s, Pool::All, n).len() == n,
    decreases n,
{
    if n > 0 {
        lemma_all_pool(s, (n - 1) as nat);
    }
}

/// How many words of the built-in list are not proper names.
proof fn lemma_names_pool(s: Seq<Entry>)
    requires
        s.len() == 181,
        s[0].is_proper == false,
        s[1].is_proper == false,
        s[2].is_proper == false,
        s[3].is_proper == false,
        s[4].is_proper == false,
        s[5].is_proper == false,
        s[6].is_proper == false,
        s[7].is_proper == false,
        s[8].is_proper == false,
        s[9].is_proper == false,
        s[10].is_proper == false,
        s[11].is_proper == false,
        s[12].is_proper == false,
        s[13].is_proper == true,
        s[14].is_proper == true,
        s[15].is_proper == false,
        s[16].is_proper == false,
        s[17].is_proper == false,
        s[18].is_proper == false,
        s[19].is_proper == false,
        s[20].is_proper == false,
        s[21].is_proper == false,
        s[22].is_proper == false,
        s[23].is_proper == false,
        s[24].is_proper == false,
        s[25].is_proper == false,
        s[26].is_proper == false,
        s[27].is_proper == false,
        s[28].is_proper == false,
        s[29].is_proper == false,
        s[30].is_proper == false,
        s[31].is_proper == false,
        s[32].is_proper == true,
        s[33].is_proper == false,
        s[34].is_proper == false,
        s[35].is_proper == false,
        s[36].is_proper == false,
        s[37].is_proper == false,
        s[38].is_proper == false,
        s[39].is_proper == false,
        s[40].is_proper == false,
        s[41].is_proper == false,
        s[42].is_proper == false,
        s[43].is_proper == false,
        s[44].is_proper == false,
        s[45].is_proper == false,
        s[46].is_proper == false,
        s[47].is_proper == true,
        s[48].is_proper == false,
        s[49].is_proper == false,
        s[50].is_proper == false,
        s[51].is_proper == true,
        s[52].is_proper == false,
        s[53].is_proper == false,
        s[54].is_proper == true,
        s[55].is_proper == false,
        s[56].is_proper == true,
        s[57].is_proper == false,
        s[58].is_proper == true,
        s[59].is_proper == true,
        s[60].is_proper == false,
        s[61].is_proper == false,
        s[62].is_proper == false,
        s[63].is_proper == false,
        s[64].is_proper == false,
        s[65].is_proper == false,
        s[66].is_proper == false,
        s[67].is_proper == false,
        s[68].is_proper == false,
        s[69].is_proper == false,
        s[70].is_proper == false,
        s[71].is_proper == false,
        s[72].is_proper == false,
        s[73].is_proper == false,
        s[74].is_proper == false,
        s[75].is_proper == false,
        s[76].is_proper == false,
        s[77].is_proper == false,
        s[78].is_proper == false,
        s[79].is_proper == false,
        s[80].is_proper == false,
        s[81].is_proper == false,
        s[82].is_proper == false,
        s[83].is_proper == true,
        s[84].is_proper == false,
        s[85].is_proper == false,
        s[86].is_proper == false,
        s[87].is_proper == false,
        s[88].is_proper == false,
        s[89].is_proper == false,
        s[90].is_proper == false,
        s[91].is_proper == false,
        s[92].is_proper == false,
        s[93].is_proper == false,
        s[94].is_proper == false,
        s[95].is_proper == true,
        s[96].is_proper == false,
        s[97].is_proper == false,
        s[98].is_proper == false,
        s[99].is_proper == false,
        s[100].is_proper == false,
        s[101].is_proper == false,
        s[102].is_proper == false,
        s[103].is_proper == false,
        s[104].is_proper == false,
        s[105].is_proper == false,
        s[106].is_proper == false,
        s[107].is_proper == false,
        s[108].is_proper == false,
        s[109].is_proper == false,
        s[110].is_proper == false,
        s[111].is_proper == false,
        s[112].is_proper == false,
        s[113].is_proper == false,
        s[114].is_proper == false,
        s[115].is_proper == false,
        s[116].is_proper == false,
        s[117].is_proper == false,
        s[118].is_proper == false,
        s[119].is_proper == false,
        s[120].is_proper == false,
        s[121].is_proper == false,
        s[122].is_proper == false,
        s[123].is_proper == false,
        s[124].is_proper == false,
        s[125].is_proper == false,
        s[126].is_proper == false,
        s[127].is_proper == false,
        s[128].is_proper == false,
        s[129].is_proper == false,
        s[130].is_proper == false,
        s[131].is_proper == false,
        s[132].is_proper == false,
        s[133].is_proper == false,
        s[134].is_proper == false,
        s[135].is_proper == false,
        s[136].is_proper == false,
        s[137].is_proper == true,
        s[138].is_proper == true,
        s[139].is_proper == true,
        s[140].is_proper == false,
        s[141].is_proper == true,
        s[142].is_proper == false,
        s[143].is_proper == false,
        s[144].is_proper == false,
        s[145].is_proper == false,
        s[146].is_proper == false,
        s[147].is_proper == false,
        s[148].is_proper == false,
        s[149].is_proper == false,
        s[150].is_proper == false,
        s[151].is_proper == false,
        s[152].is_proper == false,
        s[153].is_proper == false,
        s[154].is_proper == false,
        s[155].is_proper == false,
        s[156].is_proper == false,
        s[157].is_proper == true,
        s[158].is_proper == false,
        s[159].is_proper == false,
        s[160].is_proper == false,
        s[161].is_proper == false,
        s[162].is_proper == false,
        s[163].is_proper == false,
        s[164].is_proper == false,
        s[165].is_proper == false,
        s[166].is_proper == false,
        s[167].is_proper == true,
        s[168].is_proper == false,
        s[169].is_proper == false,
        s[170].is_proper == false,
        s[171].is_proper == false,
        s[172].is_proper == false,
        s[173].is_proper == false,
        s[174].is_proper == false,
        s[175].is_proper == false,
        s[176].is_proper == false,
        s[177].is_proper == false,
        s[178].is_proper == false,
        s[179].is_proper == false,
        s[180].is_proper == false,
    ensures
        pool_indices(s, Pool::NoProperNames, 181).len() == 164,
{
    assert(pool_indices(s, Pool::NoProperNames, 0).len() == 0);
    assert(pool_indices(s, Pool::NoProperNames, 1).len() == 1);
    assert(pool_indices(s, Pool::NoProperNames, 2).len() == 2);
    assert(pool_indices(s, Pool::NoProperNames, 3).len() == 3);
    assert(pool_indices(s, Pool::NoProperNames, 4).len() == 4);
    assert(pool_indices(s, Pool::NoProperNames, 5).len() == 5);
    assert(pool_indices(s, Pool::NoProperNames, 6).len() == 6);
    assert(pool_indices(s, Pool::NoProperNames, 7).len() == 7);
    assert(pool_indices(s, Pool::NoProperNames, 8).len() == 8);
    assert(pool_indices(s, Pool::NoProperNames, 9).len() == 9);
    assert(pool_indices(s, Pool::NoProperNames, 10).len() == 10);
    assert(pool_indices(s, Pool::NoProperNames, 11).len() == 11);
    assert(pool_indices(s, Pool::NoProperNames, 12).len() == 12);
    assert(pool_indices(s, Pool::NoProperNames, 13).len() == 13);
    assert(pool_indices(s, Pool::NoProperNames, 14).len() == 13);
    assert(pool_indices(s, Pool::NoProperNames, 15).len() == 13);
    assert(pool_indices(s, Pool::NoProperNames, 16).len() == 14);
    assert(pool_indices(s, Pool::NoProperNames, 17).len() == 15);
    assert(pool_indices(s, Pool::NoProperNames, 18).len() == 16);
    assert(pool_indices(s, Pool::NoProperNames, 19).len() == 17);
    assert(pool_indices(s, Pool::NoProperNames, 20).len() == 18);
    assert(pool_indices(s, Pool::NoProperNames, 21).len() == 19);
    assert(pool_indices(s, Pool::NoProperNames, 22).len() == 20);
    assert(pool_indices(s, Pool::NoProperNames, 23).len() == 21);
    assert(pool_indices(s, Pool::NoProperNames, 24).len() == 22);
    assert(pool_indices(s, Pool::NoProperNames, 25).len() == 23);
    assert(pool_indices(s, Pool::NoProperNames, 26).len() == 24);
    assert(pool_indices(s, Pool::NoProperNames, 27).len() == 25);
    assert(pool_indices(s, Pool::NoProperNames, 28).len() == 26);
    assert(pool_indices(s, Pool::NoProperNames, 29).len() == 27);
    assert(pool_indices(s, Pool::NoProperNames, 30).len() == 28);
    assert(pool_indices(s, Pool::NoProperNames, 31).len() == 29);
    assert(pool_indices(s, Pool::NoProperNames, 32).len() == 30);
    assert(pool_indices(s, Pool::NoProperNames, 33).len() == 30);
    assert(pool_indices(s, Pool::NoProperNames, 34).len() == 31);
    assert(pool_indices(s, Pool::NoProperNames, 35).len() == 32);
    assert(pool_indices(s, Pool::NoProperNames, 36).len() == 33);
    assert(pool_indices(s, Pool::NoProperNames, 37).len() == 34);
    assert(pool_indices(s, Pool::NoProperNames, 38).len() == 35);
    assert(pool_indices(s, Pool::NoProperNames, 39).len() == 36);
    assert(pool_indices(s, Pool::NoProperNames, 40).len() == 37);
    assert(pool_indices(s, Pool::NoProperNames, 41).len() == 38);
    assert(pool_indices(s, Pool::NoProperNames, 42).len() == 39);
    assert(pool_indices(s, Pool::NoProperNames, 43).len() == 40);
    assert(pool_indices(s, Pool::NoProperNames, 44).len() == 41);
    assert(pool_indices(s, Pool::NoProperNames, 45).len() == 42);
    assert(pool_indices(s, Pool::NoProperNames, 46).len() == 43);
    assert(pool_indices(s, Pool::NoProperNames, 47).len() == 44);
    assert(pool_indices(s, Pool::NoProperNames, 48).len() == 44);
    assert(pool_indices(s, Pool::NoProperNames, 49).len() == 45);
    assert(pool_indices(s, Pool::NoProperNames, 50).len() == 46);
    assert(pool_indices(s, Pool::NoProperNames, 51).len() == 47);
    assert(pool_indices(s, Pool::NoProperNames, 52).len() == 47);
    assert(pool_indices(s, Pool::NoProperNames, 53).len() == 48);
    assert(pool_indices(s, Pool::NoProperNames, 54).len() == 49);
    assert(pool_indices(s, Pool::NoProperNames, 55).len() == 49);
    assert(pool_indices(s, Pool::NoProperNames, 56).len() == 50);
    assert(pool_indices(s, Pool::NoProperNames, 57).len() == 50);
    assert(pool_indices(s, Pool::NoProperNames, 58).len() == 51);
    assert(pool_indices(s, Pool::NoProperNames, 59).len() == 51);
    assert(pool_indices(s, Pool::NoProperNames, 60).len() == 51);
    assert(pool_indices(s, Pool::NoProperNames, 61).len() == 52);
    assert(pool_indices(s, Pool::NoProperNames, 62).len() == 53);
    assert(pool_indices(s, Pool::NoProperNames, 63).len() == 54);
    assert(pool_indices(s, Pool::NoProperNames, 64).len() == 55);
    assert(pool_indices(s, Pool::NoProperNames, 65).len() == 56);
    assert(pool_indices(s, Pool::NoProperNames, 66).len() == 57);
    assert(pool_indices(s, Pool::NoProperNames, 67).len() == 58);
    assert(pool_indices(s, Pool::NoProperNames, 68).len() == 59);
    assert(pool_indices(s, Pool::NoProperNames, 69).len() == 60);
    assert(pool_indices(s, Pool::NoProperNames, 70).len() == 61);
    assert(pool_indices(s, Pool::NoProperNames, 71).len() == 62);
    assert(pool_indices(s, Pool::NoProperNames, 72).len() == 63);
    assert(pool_indices(s, Pool::NoProperNames, 73).len() == 64);
    assert(pool_indices(s, Pool::NoProperNames, 74).len() == 65);
    assert(pool_indices(s, Pool::NoProperNames, 75).len() == 66);
    assert(pool_indices(s, Pool::NoProperNames, 76).len() == 67);
    assert(pool_indices(s, Pool::NoProperNames, 77).len() == 68);
    assert(pool_indices(s, Pool::NoProperNames, 78).len() == 69);
    assert(pool_indices(s, Pool::NoProperNames, 79).len() == 70);
    assert(pool_indices(s, Pool::NoProperNames, 80).len() == 71);
    assert(pool_indices(s, Pool::NoProperNames, 81).len() == 72);
    assert(pool_indices(s, Pool::NoProperNames, 82).len() == 73);
    assert(pool_indices(s, Pool::NoProperNames, 83).len() == 74);
    assert(pool_indices(s, Pool::NoProperNames, 84).len() == 74);
    assert(pool_indices(s, Pool::NoProperNames, 85).len() == 75);
    assert(pool_indices(s, Pool::NoProperNames, 86).len() == 76);
    assert(pool_indices(s, Pool::NoProperNames, 87).len() == 77);
    assert(pool_indices(s, Pool::NoProperNames, 88).len() == 78);
    assert(pool_indices(s, Pool::NoProperNames, 89).len() == 79);
    assert(pool_indices(s, Pool::NoProperNames, 90).len() == 80);
    assert(pool_indices(s, Pool::NoProperNames, 91).len() == 81);
    assert(pool_indices(s, Pool::NoProperNames, 92).len() == 82);
    assert(pool_indices(s, Pool::NoProperNames, 93).len() == 83);
    assert(pool_indices(s, Pool::NoProperNames, 94).len() == 84);
    assert(pool_indices(s, Pool::NoProperNames, 95).len() == 85);
    assert(pool_indices(s, Pool::NoProperNames, 96).len() == 85);
    assert(pool_indices(s, Pool::NoProperNames, 97).len() == 86);
    assert(pool_indices(s, Pool::NoProperNames, 98).len() == 87);
    assert(pool_indices(s, Pool::NoProperNames, 99).len() == 88);
    assert(pool_indices(s, Pool::NoProperNames, 100).len() == 89);
    assert(pool_indices(s, Pool::NoProperNames, 101).len() == 90);
    assert(pool_indices(s, Pool::NoProperNames, 102).len() == 91);
    assert(pool_indices(s, Pool::NoProperNames, 103).len() == 92);
    assert(pool_indices(s, Pool::NoProperNames, 104).len() == 93);
    assert(pool_indices(s, Pool::NoProperNames, 105).len() == 94);
    assert(pool_indices(s, Pool::NoProperNames, 106).len() == 95);
    assert(pool_indices(s, Pool::NoProperNames, 107).len() == 96);
    assert(pool_indices(s, Pool::NoProperNames, 108).len() == 97);
    assert(pool_indices(s, Pool::NoProperNames, 109).len() == 98);
    assert(pool_indices(s, Pool::NoProperNames, 110).len() == 99);
    assert(pool_indices(s, Pool::NoProperNames, 111).len() == 100);
    assert(pool_indices(s, Pool::NoProperNames, 112).len() == 101);
    assert(pool_indices(s, Pool::NoProperNames, 113).len() == 102);
    assert(pool_indices(s, Pool::NoProperNames, 114).len() == 103);
    assert(pool_indices(s, Pool::NoProperNames, 115).len() == 104);
    assert(pool_indices(s, Pool::NoProperNames, 116).len() == 105);
    assert(pool_indices(s, Pool::NoProperNames, 117).len() == 106);
    assert(pool_indices(s, Pool::NoProperNames, 118).len() == 107);
    assert(pool_indices(s, Pool::NoProperNames, 119).len() == 108);
    assert(pool_indices(s, Pool::NoProperNames, 120).len() == 109);
    assert(pool_indices(s, Pool::NoProperNames, 121).len() == 110);
    assert(pool_indices(s, Pool::NoProperNames, 122).len() == 111);
    assert(pool_indices(s, Pool::NoProperNames, 123).len() == 112);
    assert(pool_indices(s, Pool::NoProperNames, 124).len() == 113);
    assert(pool_indices(s, Pool::NoProperNames, 125).len() == 114);
    assert(pool_indices(s, Pool::NoProperNames, 126).len() == 115);
    assert(pool_indices(s, Pool::NoProperNames, 127).len() == 116);
    assert(pool_indices(s, Pool::NoProperNames, 128).len() == 117);
    assert(pool_indices(s, Pool::NoProperNames, 129).len() == 118);
    assert(pool_indices(s, Pool::NoProperNames, 130).len() == 119);
    assert(pool_indices(s, Pool::NoProperNames, 131).len() == 120);
    assert(pool_indices(s, Pool::NoProperNames, 132).len() == 121);
    assert(pool_indices(s, Pool::NoProperNames, 133).len() == 122);
    assert(pool_indices(s, Pool::NoProperNames, 134).len() == 123);
    assert(pool_indices(s, Pool::NoProperNames, 135).len() == 124);
    assert(pool_indices(s, Pool::NoProperNames, 136).len() == 125);
    assert(pool_indices(s, Pool::NoProperNames, 137).len() == 126);
    assert(pool_indices(s, Pool::NoProperNames, 138).len() == 126);
    assert(pool_indices(s, Pool::NoProperNames, 139).len() == 126);
    assert(pool_indices(s, Pool::NoProperNames, 140).len() == 126);
    assert(pool_indices(s, Pool::NoProperNames, 141).len() == 127);
    assert(pool_indices(s, Pool::NoProperNames, 142).len() == 127);
    assert(pool_indices(s, Pool::NoProperNames, 143).len() == 128);
    assert(pool_indices(s, Pool::NoProperNames, 144).len() == 129);
    assert(pool_indices(s, Pool::NoProperNames, 145).len() == 130);
    assert(pool_indices(s, Pool::NoProperNames, 146).len() == 131);
    assert(pool_indices(s, Pool::NoProperNames, 147).len() == 132);
    assert(pool_indices(s, Pool::NoProperNames, 148).len() == 133);
    assert(pool_indices(s, Pool::NoProperNames, 149).len() == 134);
    assert(pool_indices(s, Pool::NoProperNames, 150).len() == 135);
    assert(pool_indices(s, Pool::NoProperNames, 151).len() == 136);
    assert(pool_indices(s, Pool::NoProperNames, 152).len() == 137);
    assert(pool_indices(s, Pool::NoProperNames, 153).len() == 138);
    assert(pool_indices(s, Pool::NoProperNames, 154).len() == 139);
    assert(pool_indices(s, Pool::NoProperNames, 155).len() == 140);
    assert(pool_indices(s, Pool::NoProperNames, 156).len() == 141);
    assert(pool_indices(s, Pool::NoProperNames, 157).len() == 142);
    assert(pool_indices(s, Pool::NoProperNames, 158).len() == 142);
    assert(pool_indices(s, Pool::NoProperNames, 159).len() == 143);
    assert(pool_indices(s, Pool::NoProperNames, 160).len() == 144);
    assert(pool_indices(s, Pool::NoProperNames, 161).len() == 145);
    assert(pool_indices(s, Pool::NoProperNames, 162).len() == 146);
    assert(pool_indices(s, Pool::NoProperNames, 163).len() == 147);
    assert(pool_indices(s, Pool::NoProperNames, 164).len() == 148);
    assert(pool_indices(s, Pool::NoProperNames, 165).len() == 149);
    assert(pool_indices(s, Pool::NoProperNames, 166).len() == 150);
    assert(pool_indices(s, Pool::NoProperNames, 167).len() == 151);
    assert(pool_indices(s, Pool::NoProperNames, 168).len() == 151);
    assert(pool_indices(s, Pool::NoProperNames, 169).len() == 152);
    assert(pool_indices(s, Pool::NoProperNames, 170).len() == 153);
    assert(pool_indices(s, Pool::NoProperNames, 171).len() == 154);
    assert(pool_indices(s, Pool::NoProperNames, 172).len() == 155);
    assert(pool_indices(s, Pool::NoProperNames, 173).len() == 156);
    assert(pool_indices(s, Pool::NoProperNames, 174).len() == 157);
    assert(pool_indices(s, Pool::NoProperNames, 175).len() == 158);
    assert(pool_indices(s, Pool::NoProperNames, 176).len() == 159);
    assert(pool_indices(s, Pool::NoProperNames, 177).len() == 160);
    assert(pool_indices(s, Pool::NoProperNames, 178).len() == 161);
    assert(pool_indices(s, Pool::NoProperNames, 179).len() == 162);
    assert(pool_indices(s, Pool::NoProperNames, 180).len() == 163);
    assert(pool_indices(s, Pool::NoProperNames, 181).len() == 164);
}

/// How many words of the built-in list are common.
proof fn lemma_common_pool(s: Seq<Entry>)
    requires
        s.len() == 181,
        s[0].rank == 980,
        s[1].rank == 180,
        s[2].rank == 975,
        s[3].rank == 650,
        s[4].rank == 880,
        s[5].rank == 420,
        s[6].rank == 955,
        s[7].rank == 990,
        s[8].rank == 540,
        s[9].rank == 330,
        s[10].rank == 970,
        s[11].rank == 600,
        s[12].rank == 350,
        s[13].rank == 230,
        s[14].rank == 20,
        s[15].rank == 930,
        s[16].rank == 860,
        s[17].rank == 640,
        s[18].rank == 780,
        s[19].rank == 560,
        s[20].rank == 520,
        s[21].rank == 985,
        s[22].rank == 985,
        s[23].rank == 620,
        s[24].rank == 700,
        s[25].rank == 300,
        s[26].rank == 790,
        s[27].rank == 220,
        s[28].rank == 760,
        s[29].rank == 160,
        s[30].rank == 990,
        s[31].rank == 630,
        s[32].rank == 950,
        s[33].rank == 690,
        s[34].rank == 890,
        s[35].rank == 945,
        s[36].rank == 800,
        s[37].rank == 960,
        s[38].rank == 985,
        s[39].rank == 800,
        s[40].rank == 620,
        s[41].rank == 870,
        s[42].rank == 900,
        s[43].rank == 830,
        s[44].rank == 955,
        s[45].rank == 970,
        s[46].rank == 960,
        s[47].rank == 860,
        s[48].rank == 810,
        s[49].rank == 990,
        s[50].rank == 760,
        s[51].rank == 880,
        s[52].rank == 940,
        s[53].rank == 240,
        s[54].rank == 640,
        s[55].rank == 700,
        s[56].rank == 760,
        s[57].rank == 720,
        s[58].rank == 600,
        s[59].rank == 850,
        s[60].rank == 945,
        s[61].rank == 980,
        s[62].rank == 965,
        s[63].rank == 700,
        s[64].rank == 520,
        s[65].rank == 850,
        s[66].rank == 720,
        s[67].rank == 570,
        s[68].rank == 830,
        s[69].rank == 620,
        s[70].rank == 880,
        s[71].rank == 420,
        s[72].rank == 965,
        s[73].rank == 730,
        s[74].rank == 975,
        s[75].rank == 640,
        s[76].rank == 780,
        s[77].rank == 880,
        s[78].rank == 690,
        s[79].rank == 995,
        s[80].rank == 150,
        s[81].rank == 560,
        s[82].rank == 810,
        s[83].rank == 940,
        s[84].rank == 996,
        s[85].rank == 960,
        s[86].rank == 800,
        s[87].rank == 850,
        s[88].rank == 860,
        s[89].rank == 830,
        s[90].rank == 640,
        s[91].rank == 400,
        s[92].rank == 350,
        s[93].rank == 690,
        s[94].rank == 700,
        s[95].rank == 80,
        s[96].rank == 600,
        s[97].rank == 820,
        s[98].rank == 710,
        s[99].rank == 992,
        s[100].rank == 660,
        s[101].rank == 510,
        s[102].rank == 630,
        s[103].rank == 740,
        s[104].rank == 640,
        s[105].rank == 770,
        s[106].rank == 650,
        s[107].rank == 310,
        s[108].rank == 620,
        s[109].rank == 965,
        s[110].rank == 968,
        s[111].rank == 840,
        s[112].rank == 760,
        s[113].rank == 988,
        s[114].rank == 930,
        s[115].rank == 610,
        s[116].rank == 260,
        s[117].rank == 978,
        s[118].rank == 580,
        s[119].rank == 380,
        s[120].rank == 760,
        s[121].rank == 930,
        s[122].rank == 997,
        s[123].rank == 910,
        s[124].rank == 250,
        s[125].rank == 940,
        s[126].rank == 920,
        s[127].rank == 780,
        s[128].rank == 760,
        s[129].rank == 700,
        s[130].rank == 955,
        s[131].rank == 590,
        s[132].rank == 280,
        s[133].rank == 999,
        s[134].rank == 972,
        s[135].rank == 540,
        s[136].rank == 710,
        s[137].rank == 60,
        s[138].rank == 610,
        s[139].rank == 300,
        s[140].rank == 580,
        s[141].rank == 950,
        s[142].rank == 680,
        s[143].rank == 750,
        s[144].rank == 905,
        s[145].rank == 820,
        s[146].rank == 640,
        s[147].rank == 560,
        s[148].rank == 915,
        s[149].rank == 880,
        s[150].rank == 560,
        s[151].rank == 560,
        s[152].rank == 640,
        s[153].rank == 900,
        s[154].rank == 960,
        s[155].rank == 760,
        s[156].rank == 790,
        s[157].rank == 600,
        s[158].rank == 120,
        s[159].rank == 958,
        s[160].rank == 950,
        s[161].rank == 800,
        s[162].rank == 510,
        s[163].rank == 660,
        s[164].rank == 900,
        s[165].rank == 520,
        s[166].rank == 850,
        s[167].rank == 450,
        s[168].rank == 590,
        s[169].rank == 860,
        s[170].rank == 860,
        s[171].rank == 930,
        s[172].rank == 650,
        s[173].rank == 350,
        s[174].rank == 560,
        s[175].rank == 810,
        s[176].rank == 900,
        s[177].rank == 975,
        s[178].rank == 983,
        s[179].rank == 610,
        s[180].rank == 560,
    ensures
        pool_indices(s, Pool::Common, 181).len() == 156,
{
    assert(pool_indices(s, Pool::Common, 0).len() == 0);
    assert(pool_indices(s, Pool::Common, 1).len() == 1);
    assert(pool_indices(s, Pool::Common, 2).len() == 1);
    assert(pool_indices(s, Pool::Common, 3).len() == 2);
    assert(pool_indices(s, Pool::Common, 4).len() == 3);
    assert(pool_indices(s, Pool::Common, 5).len() == 4);
    assert(pool_indices(s, Pool::Common, 6).len() == 4);
    assert(pool_indices(s, Pool::Common, 7).len() == 5);
    assert(pool_indices(s, Pool::Common, 8).len() == 6);
    assert(pool_indices(s, Pool::Common, 9).len() == 7);
    assert(pool_indices(s, Pool::Common, 10).len() == 7);
    assert(pool_indices(s, Pool::Common, 11).len() == 8);
    assert(pool_indices(s, Pool::Common, 12).len() == 9);
    assert(pool_indices(s, Pool::Common, 13).len() == 9);
    assert(pool_indices(s, Pool::Common, 14).len() == 9);
    assert(pool_indices(s, Pool::Common, 15).len() == 9);
    assert(pool_indices(s, Pool::Common, 16).len() == 10);
    assert(pool_indices(s, Pool::Common, 17).len() == 11);
    assert(pool_indices(s, Pool::Common, 18).len() == 12);
    assert(pool_indices(s, Pool::Common, 19).len() == 13);
    assert(pool_indices(s, Pool::Common, 20).len() == 14);
    assert(pool_indices(s, Pool::Common, 21).len() == 15);
    assert(pool_indices(s, Pool::Common, 22).len() == 16);
    assert(pool_indices(s, Pool::Common, 23).len() == 17);
    assert(pool_indices(s, Pool::Common, 24).len() == 18);
    assert(pool_indices(s, Pool::Common, 25).len() == 19);
    assert(pool_indices(s, Pool::Common, 26).len() == 19);
    assert(pool_indices(s, Pool::Common, 27).len() == 20);
    assert(pool_indices(s, Pool::Common, 28).len() == 20);
    assert(pool_indices(s, Pool::Common, 29).len() == 21);
    assert(pool_indices(s, Pool::Common, 30).len() == 21);
    assert(pool_indices(s, Pool::Common, 31).len() == 22);
    assert(pool_indices(s, Pool::Common, 32).len() == 23);
    assert(pool_indices(s, Pool::Common, 33).len() == 24);
    assert(pool_indices(s, Pool::Common, 34).len() == 25);
    assert(pool_indices(s, Pool::Common, 35).len() == 26);
    assert(pool_indices(s, Pool::Common, 36).len() == 27);
    assert(pool_indices(s, Pool::Common, 37).len() == 28);
    assert(pool_indices(s, Pool::Common, 38).len() == 29);
    assert(pool_indices(s, Pool::Common, 39).len() == 30);
    assert(pool_indices(s, Pool::Common, 40).len() == 31);
    assert(pool_indices(s, Pool::Common, 41).len() == 32);
    assert(pool_indices(s, Pool::Common, 42).len() == 33);
    assert(pool_indices(s, Pool::Common, 43).len() == 34);
    assert(pool_indices(s, Pool::Common, 44).len() == 35);
    assert(pool_indices(s, Pool::Common, 45).len() == 36);
    assert(pool_indices(s, Pool::Common, 46).len() == 37);
    assert(pool_indices(s, Pool::Common, 47).len() == 38);
    assert(pool_indices(s, Pool::Common, 48).len() == 39);
    assert(pool_indices(s, Pool::Common, 49).len() == 40);
    assert(pool_indices(s, Pool::Common, 50).len() == 41);
    assert(pool_indices(s, Pool::Common, 51).len() == 42);
    assert(pool_indices(s, Pool::Common, 52).len() == 43);
    assert(pool_indices(s, Pool::Common, 53).len() == 44);
    assert(pool_indices(s, Pool::Common, 54).len() == 44);
    assert(pool_indices(s, Pool::Common, 55).len() == 45);
    assert(pool_indices(s, Pool::Common, 56).len() == 46);
    assert(pool_indices(s, Pool::Common, 57).len() == 47);
    assert(pool_indices(s, Pool::Common, 58).len() == 48);
    assert(pool_indices(s, Pool::Common, 59).len() == 49);
    assert(pool_indices(s, Pool::Common, 60).len() == 50);
    assert(pool_indices(s, Pool::Common, 61).len() == 51);
    assert(pool_indices(s, Pool::Common, 62).len() == 52);
    assert(pool_indices(s, Pool::Common, 63).len() == 53);
    assert(pool_indices(s, Pool::Common, 64).len() == 54);
    assert(pool_indices(s, Pool::Common, 65).len() == 55);
    assert(pool_indices(s, Pool::Common, 66).len() == 56);
    assert(pool_indices(s, Pool::Common, 67).len() == 57);
    assert(pool_indices(s, Pool::Common, 68).len() == 58);
    assert(pool_indices(s, Pool::Common, 69).len() == 59);
    assert(pool_indices(s, Pool::Common, 70).len() == 60);
    assert(pool_indices(s, Pool::Common, 71).len() == 61);
    assert(pool_indices(s, Pool::Common, 72).len() == 61);
    assert(pool_indices(s, Pool::Common, 73).len() == 62);
    assert(pool_indices(s, Pool::Common, 74).len() == 63);
    assert(pool_indices(s, Pool::Common, 75).len() == 64);
    assert(pool_indices(s, Pool::Common, 76).len() == 65);
    assert(pool_indices(s, Pool::Common, 77).len() == 66);
    assert(pool_indices(s, Pool::Common, 78).len() == 67);
    assert(pool_indices(s, Pool::Common, 79).len() == 68);
    assert(pool_indices(s, Pool::Common, 80).len() == 69);
    assert(pool_indices(s, Pool::Common, 81).len() == 69);
    assert(pool_indices(s, Pool::Common, 82).len() == 70);
    assert(pool_indices(s, Pool::Common, 83).len() == 71);
    assert(pool_indices(s, Pool::Common, 84).len() == 72);
    assert(pool_indices(s, Pool::Common, 85).len() == 73);
    assert(pool_indices(s, Pool::Common, 86).len() == 74);
    assert(pool_indices(s, Pool::Common, 87).len() == 75);
    assert(pool_indices(s, Pool::Common, 88).len() == 76);
    assert(pool_indices(s, Pool::Common, 89).len() == 77);
    assert(pool_indices(s, Pool::Common, 90).len() == 78);
    assert(pool_indices(s, Pool::Common, 91).len() == 79);
    assert(pool_indices(s, Pool::Common, 92).len() == 79);
    assert(pool_indices(s, Pool::Common, 93).len() == 79);
    assert(pool_indices(s, Pool::Common, 94).len() == 80);
    assert(pool_indices(s, Pool::Common, 95).len() == 81);
    assert(pool_indices(s, Pool::Common, 96).len() == 81);
    assert(pool_indices(s, Pool::Common, 97).len() == 82);
    assert(pool_indices(s, Pool::Common, 98).len() == 83);
    assert(pool_indices(s, Pool::Common, 99).len() == 84);
    assert(pool_indices(s, Pool::Common, 100).len() == 85);
    assert(pool_indices(s, Pool::Common, 101).len() == 86);
    assert(pool_indices(s, Pool::Common, 102).len() == 87);
    assert(pool_indices(s, Pool::Common, 103).len() == 88);
    assert(pool_indices(s, Pool::Common, 104).len() == 89);
    assert(pool_indices(s, Pool::Common, 105).len() == 90);
    assert(pool_indices(s, Pool::Common, 106).len() == 91);
    assert(pool_indices(s, Pool::Common, 107).len() == 92);
    assert(pool_indices(s, Pool::Common, 108).len() == 92);
    assert(pool_indices(s, Pool::Common, 109).len() == 93);
    assert(pool_indices(s, Pool::Common, 110).len() == 94);
    assert(pool_indices(s, Pool::Common, 111).len() == 95);
    assert(pool_indices(s, Pool::Common, 112).len() == 96);
    assert(pool_indices(s, Pool::Common, 113).len() == 97);
    assert(pool_indices(s, Pool::Common, 114).len() == 98);
    assert(pool_indices(s, Pool::Common, 115).len() == 99);
    assert(pool_indices(s, Pool::Common, 116).len() == 100);
    assert(pool_indices(s, Pool::Common, 117).len() == 100);
    assert(pool_indices(s, Pool::Common, 118).len() == 101);
    assert(pool_indices(s, Pool::Common, 119).len() == 102);
    assert(pool_indices(s, Pool::Common, 120).len() == 102);
    assert(pool_indices(s, Pool::Common, 121).len() == 103);
    assert(pool_indices(s, Pool::Common, 122).len() == 104);
    assert(pool_indices(s, Pool::Common, 123).len() == 105);
    assert(pool_indices(s, Pool::Common, 124).len() == 106);
    assert(pool_indices(s, Pool::Common, 125).len() == 106);
    assert(pool_indices(s, Pool::Common, 126).len() == 107);
    assert(pool_indices(s, Pool::Common, 127).len() == 108);
    assert(pool_indices(s, Pool::Common, 128).len() == 109);
    assert(pool_indices(s, Pool::Common, 129).len() == 110);
    assert(pool_indices(s, Pool::Common, 130).len() == 111);
    assert(pool_indices(s, Pool::Common, 131).len() == 112);
    assert(pool_indices(s, Pool::Common, 132).len() == 113);
    assert(pool_indices(s, Pool::Common, 133).len() == 113);
    assert(pool_indices(s, Pool::Common, 134).len() == 114);
    assert(pool_indices(s, Pool::Common, 135).len() == 115);
    assert(pool_indices(s, Pool::Common, 136).len() == 116);
    assert(pool_indices(s, Pool::Common, 137).len() == 117);
    assert(pool_indices(s, Pool::Common, 138).len() == 117);
    assert(pool_indices(s, Pool::Common, 139).len() == 118);
    assert(pool_indices(s, Pool::Common, 140).len() == 118);
    assert(pool_indices(s, Pool::Common, 141).len() == 119);
    assert(pool_indices(s, Pool::Common, 142).len() == 120);
    assert(pool_indices(s, Pool::Common, 143).len() == 121);
    assert(pool_indices(s, Pool::Common, 144).len() == 122);
    assert(pool_indices(s, Pool::Common, 145).len() == 123);
    assert(pool_indices(s, Pool::Common, 146).len() == 124);
    assert(pool_indices(s, Pool::Common, 147).len() == 125);
    assert(pool_indices(s, Pool::Common, 148).len() == 126);
    assert(pool_indices(s, Pool::Common, 149).len() == 127);
    assert(pool_indices(s, Pool::Common, 150).len() == 128);
    assert(pool_indices(s, Pool::Common, 151).len() == 129);
    assert(pool_indices(s, Pool::Common, 152).len() == 130);
    assert(pool_indices(s, Pool::Common, 153).len() == 131);
    assert(pool_indices(s, Pool::Common, 154).len() == 132);
    assert(pool_indices(s, Pool::Common, 155).len() == 133);
    assert(pool_indices(s, Pool::Common, 156).len() == 134);
    assert(pool_indices(s, Pool::Common, 157).len() == 135);
    assert(pool_indices(s, Pool::Common, 158).len() == 136);
    assert(pool_indices(s, Pool::Common, 159).len() == 136);
    assert(pool_indices(s, Pool::Common, 160).len() == 137);
    assert(pool_indices(s, Pool::Common, 161).len() == 138);
    assert(pool_indices(s, Pool::Common, 162).len() == 139);
    assert(pool_indices(s, Pool::Common, 163).len() == 140);
    assert(pool_indices(s, Pool::Common, 164).len() == 141);
    assert(pool_indices(s, Pool::Common, 165).len() == 142);
    assert(pool_indices(s, Pool::Common, 166).len() == 143);
    assert(pool_indices(s, Pool::Common, 167).len() == 144);
    assert(pool_indices(s, Pool::Common, 168).len() == 144);
    assert(pool_indices(s, Pool::Common, 169).len() == 145);
    assert(pool_indices(s, Pool::Common, 170).len() == 146);
    assert(pool_indices(s, Pool::Common, 171).len() == 147);
    assert(pool_indices(s, Pool::Common, 172).len() == 148);
    assert(pool_indices(s, Pool::Common, 173).len() == 149);
    assert(pool_indices(s, Pool::Common, 174).len() == 149);
    assert(pool_indices(s, Pool::Common, 175).len() == 150);
    assert(pool_indices(s, Pool::Common, 176).len() == 151);
    assert(pool_indices(s, Pool::Common, 177).len() == 152);
    assert(pool_indices(s, Pool::Common, 178).len() == 153);
    assert(pool_indices(s, Pool::Common, 179).len() == 154);
    assert(pool_indices(s, Pool::Common, 180).len() == 155);
    assert(pool_indices(s, Pool::Common, 181).len() == 156);
}

/// Every letter of the alphabet occurs in some word of the built-in list.
proof fn lemma_every_letter_used(s: Seq<Entry>)
    requires
        s.len() == 181,
        s[0].word@ == "αγαπη"@,
        s[1].word@ == "αγγοσ"@,
        s[2].word@ == "αγιοσ"@,
        s[3].word@ == "αγορα"@,
        s[5].word@ == "αινοσ"@,
        s[6].word@ == "αιτεω"@,
        s[7].word@ == "ακουω"@,
        s[10].word@ == "αλλοσ"@,
        s[11].word@ == "αμνοσ"@,
        s[12].word@ == "ανθοσ"@,
        s[14].word@ == "απφια"@,
        s[16].word@ == "αρχων"@,
        s[19].word@ == "βαθοσ"@,
        s[31].word@ == "δακρυ"@,
        s[33].word@ == "διψαω"@,
        s[46].word@ == "ζητεω"@,
        s[103].word@ == "ξενοσ"@,
    ensures
        every_letter_used(s),
{
    reveal_strlit("αγαπη");
    reveal_strlit("αγγοσ");
    reveal_strlit("αγιοσ");
    reveal_strlit("αγορα");
    reveal_strlit("αινοσ");
    reveal_strlit("αιτεω");
    reveal_strlit("ακουω");
    reveal_strlit("αλλοσ");
    reveal_strlit("αμνοσ");
    reveal_strlit("ανθοσ");
    reveal_strlit("απφια");
    reveal_strlit("αρχων");
    reveal_strlit("βαθοσ");
    reveal_strlit("δακρυ");
    reveal_strlit("διψαω");
    reveal_strlit("ζητεω");
    reveal_strlit("ξενοσ");
    reveal_strlit("αβγδεζηθικλμνξοπρστυφχψω");
    lemma_alphabet_is_the_letters();
    let a = ALPHABET@;
    assert forall|c: char| is_letter(c) implies exists|i: int, k: int|
        0 <= i < s.len() && 0 <= k < s[i].word@.len() && #[trigger] s[i].word@[k] == c by {
        assert(a.contains(c));
        let j = choose|j: int| 0 <= j < a.len() && a[j] == c;
        if j == 0 {
            assert(s[0].word@[0] == a[0]);
        }
        else if j == 1 {
            assert(s[19].word@[0] == a[1]);
        }
        else if j == 2 {
            assert(s[0].word@[1] == a[2]);
        }
        else if j == 3 {
            assert(s[31].word@[0] == a[3]);
        }
        else if j == 4 {
            assert(s[6].word@[3] == a[4]);
        }
        else if j == 5 {
            assert(s[46].word@[0] == a[5]);
        }
        else if j == 6 {
            assert(s[0].word@[4] == a[6]);
        }
        else if j == 7 {
            assert(s[12].word@[2] == a[7]);
        }
        else if j == 8 {
            assert(s[2].word@[2] == a[8]);
        }
        else if j == 9 {
            assert(s[7].word@[1] == a[9]);
        }
        else if j == 10 {
            assert(s[10].word@[1] == a[10]);
        }
        else if j == 11 {
            assert(s[11].word@[1] == a[11]);
        }
        else if j == 12 {
            assert(s[5].word@[2] == a[12]);
        }
        else if j == 13 {
            assert(s[103].word@[0] == a[13]);
        }
        else if j == 14 {
            assert(s[1].word@[3] == a[14]);
        }
        else if j == 15 {
            assert(s[0].word@[3] == a[15]);
        }
        else if j == 16 {
            assert(s[3].word@[3] == a[16]);
        }
        else if j == 17 {
            assert(s[1].word@[4] == a[17]);
        }
        else if j == 18 {
            assert(s[6].word@[2] == a[18]);
        }
        else if j == 19 {
            assert(s[7].word@[3] == a[19]);
        }
        else if j == 20 {
            assert(s[14].word@[2] == a[20]);
        }
        else if j == 21 {
            assert(s[16].word@[2] == a[21]);
        }
        else if j == 22 {
            assert(s[33].word@[2] == a[22]);
        }
        else if j == 23 {
            assert(s[6].word@[4] == a[23]);
        }
    }
}

} // verus!
