//! Wire codec for the two replication messages.
//!
//! | Message                  | Wire form                                       |
//! |--------------------------|-------------------------------------------------|
//! | forward write to leader  | `GRADE_TO_COORDINATOR;<name>;<grade>`           |
//! | replica broadcast        | `GRADE_FROM_COORDINATOR;<name>;<grade>;<hash>`  |

use vstd::prelude::*;
use vstd::string::StringExecFns;
use crate::blockchain::BlockchainRecord;
use crate::blockchain::RecordModel;
use crate::digits::spec_dec;
use crate::digits::spec_parse_u64;
use crate::digits::u64_to_string;
use crate::digits::parse_u64;
use crate::digits::lemma_dec_canonical;
use crate::text::spec_split;
use crate::text::spec_join;
use crate::text::views_of;
use crate::text::split_str;
use crate::text::str_eq;
use crate::text::lemma_split_join;

verus! {

#[derive(Debug)]
pub enum AddGradeMessage {
    FromCoordinator(BlockchainRecord),
    ToCoordinator(String, String),
}

/// Mathematical model of a replication message.
#[verifier::ext_equal]
pub enum AddGradeModel {
    FromCoordinator(RecordModel),
    ToCoordinator(Seq<char>, Seq<char>),
}

impl View for AddGradeMessage {
    type V = AddGradeModel;

    open spec fn view(&self) -> AddGradeModel {
        match self {
            AddGradeMessage::FromCoordinator(record) => AddGradeModel::FromCoordinator(record@),
            AddGradeMessage::ToCoordinator(name, grade) => AddGradeModel::ToCoordinator(
                name@,
                grade@,
            ),
        }
    }
}

/// The text a replication message puts on the wire.
pub open spec fn spec_add_grade_text(m: AddGradeModel) -> Seq<char> {
    match m {
        AddGradeModel::FromCoordinator(r) => "GRADE_FROM_COORDINATOR"@ + seq![';'] + r.name
            + seq![';'] + r.grade + seq![';'] + spec_dec(r.hash as nat),
        AddGradeModel::ToCoordinator(name, grade) => "GRADE_TO_COORDINATOR"@ + seq![';'] + name
            + seq![';'] + grade,
    }
}

/// The replication message a piece of text denotes: its `;`-separated
/// tokens, read as the keyword and the fields; nothing when the keyword is
/// unknown, a field is missing, or the hash does not parse.
pub open spec fn spec_add_grade_from_text(s: Seq<char>) -> Option<AddGradeModel> {
    let tokens = spec_split(s, ';');
    if tokens[0] == "GRADE_FROM_COORDINATOR"@ {
        if tokens.len() >= 4 {
            match spec_parse_u64(tokens[3]) {
                Some(h) => Some(
                    AddGradeModel::FromCoordinator(
                        RecordModel { name: tokens[1], grade: tokens[2], hash: h },
                    ),
                ),
                None => None,
            }
        } else {
            None
        }
    } else if tokens[0] == "GRADE_TO_COORDINATOR"@ {
        if tokens.len() >= 3 {
            Some(AddGradeModel::ToCoordinator(tokens[1], tokens[2]))
        } else {
            None
        }
    } else {
        None
    }
}

impl AddGradeMessage {
    /// The wire text of this message.
    pub fn as_string(self) -> (r: String)
        ensures
            r@ == spec_add_grade_text(self@),
    {
        proof {
            reveal_strlit(";");
        }
        match self {
            AddGradeMessage::FromCoordinator(record) => {
                let mut s = "GRADE_FROM_COORDINATOR".to_owned();
                s.append(";");
                s.append(record.student_name.as_str());
                s.append(";");
                s.append(record.grade.as_str());
                s.append(";");
                let d = u64_to_string(record.hash);
                s.append(d.as_str());
                proof {
                    assert(s@ =~= spec_add_grade_text(
                        AddGradeModel::FromCoordinator(record@),
                    ));
                }
                s
            },
            AddGradeMessage::ToCoordinator(student_name, grade) => {
                let mut s = "GRADE_TO_COORDINATOR".to_owned();
                s.append(";");
                s.append(student_name.as_str());
                s.append(";");
                s.append(grade.as_str());
                proof {
                    assert(s@ =~= spec_add_grade_text(
                        AddGradeModel::ToCoordinator(student_name@, grade@),
                    ));
                }
                s
            },
        }
    }

    /// The replication message a piece of text denotes, or nothing.
    pub fn from_string(string: String) -> (r: Option<AddGradeMessage>)
        ensures
            match r {
                Some(m) => spec_add_grade_from_text(string@) == Some(m@),
                None => spec_add_grade_from_text(string@) is None,
            },
    {
        let tokens = split_str(string.as_str(), ';');
        let n = tokens.len();
        proof {
            assert(views_of(tokens@)[0] == tokens@[0]@);
        }
        if str_eq(tokens[0].as_str(), "GRADE_FROM_COORDINATOR") {
            if n >= 4 {
                proof {
                    assert(views_of(tokens@)[1] == tokens@[1]@);
                    assert(views_of(tokens@)[2] == tokens@[2]@);
                    assert(views_of(tokens@)[3] == tokens@[3]@);
                }
                match parse_u64(tokens[3].as_str()) {
                    Some(h) => Some(
                        AddGradeMessage::FromCoordinator(
                            BlockchainRecord {
                                student_name: tokens[1].clone(),
                                grade: tokens[2].clone(),
                                hash: h,
                            },
                        ),
                    ),
                    None => None,
                }
            } else {
                None
            }
        } else if str_eq(tokens[0].as_str(), "GRADE_TO_COORDINATOR") {
            if n >= 3 {
                proof {
                    assert(views_of(tokens@)[1] == tokens@[1]@);
                    assert(views_of(tokens@)[2] == tokens@[2]@);
                }
                Some(AddGradeMessage::ToCoordinator(tokens[1].clone(), tokens[2].clone()))
            } else {
                None
            }
        } else {
            None
        }
    }
}

impl PartialEq for AddGradeMessage {
    fn eq(&self, other: &Self) -> (r: bool) {
        match (self, other) {
            (
                AddGradeMessage::FromCoordinator(a),
                AddGradeMessage::FromCoordinator(b),
            ) => a.eq(b),
            (
                AddGradeMessage::ToCoordinator(n1, g1),
                AddGradeMessage::ToCoordinator(n2, g2),
            ) => n1.eq(n2) && g1.eq(g2),
            _ => false,
        }
    }
}

impl vstd::std_specs::cmp::PartialEqSpecImpl for AddGradeMessage {
    open spec fn obeys_eq_spec() -> bool {
        true
    }

    open spec fn eq_spec(&self, other: &Self) -> bool {
        self@ == other@
    }
}

/// A replica broadcast decodes back to the record it carries, whenever the
/// name and the grade text are free of the `;` delimiter.
pub proof fn law_replica_message_roundtrip(r: RecordModel)
    requires
        !r.name.contains(';'),
        !r.grade.contains(';'),
    ensures
        spec_add_grade_from_text(spec_add_grade_text(AddGradeModel::FromCoordinator(r))) == Some(
            AddGradeModel::FromCoordinator(r),
        ),
{
    reveal_strlit("GRADE_FROM_COORDINATOR");
    reveal_strlit("GRADE_TO_COORDINATOR");
    lemma_dec_canonical(r.hash as nat);
    let keyword = "GRADE_FROM_COORDINATOR"@;
    let dec = spec_dec(r.hash as nat);
    let tokens = seq![keyword, r.name, r.grade, dec];
    let text = spec_add_grade_text(AddGradeModel::FromCoordinator(r));
    assert(spec_join(tokens, ';') == text) by {
        assert(tokens.drop_first() =~= seq![r.name, r.grade, dec]);
        assert(tokens.drop_first().drop_first() =~= seq![r.grade, dec]);
        assert(tokens.drop_first().drop_first().drop_first() =~= seq![dec]);
        assert(spec_join(seq![dec], ';') == dec);
        assert(spec_join(seq![r.grade, dec], ';') == r.grade + seq![';'] + dec);
        assert(spec_join(seq![r.name, r.grade, dec], ';') == r.name + seq![';'] + (r.grade
            + seq![';'] + dec));
        assert(keyword + seq![';'] + (r.name + seq![';'] + (r.grade + seq![';'] + dec))
            =~= text);
    }
    assert(!keyword.contains(';')) by {
        if keyword.contains(';') {
            let j = choose|j: int| 0 <= j < keyword.len() && keyword[j] == ';';
            assert(keyword[j] == ';');
        }
    }
    assert(!dec.contains(';')) by {
        if dec.contains(';') {
            let j = choose|j: int| 0 <= j < dec.len() && dec[j] == ';';
            assert(crate::digits::is_digit_char(dec[j]));
        }
    }
    assert(forall|k: int| 0 <= k < tokens.len() ==> !(#[trigger] tokens[k]).contains(';'));
    lemma_split_join(tokens, ';');
    assert(spec_split(text, ';') == tokens);
    assert(keyword != "GRADE_TO_COORDINATOR"@);
    assert(spec_parse_u64(dec) == Some(r.hash));
    assert(RecordModel { name: r.name, grade: r.grade, hash: r.hash } =~= r);
}

} // verus!
