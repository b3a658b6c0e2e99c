//! The domain ontology of the knowledge graph: the kinds of entities, the
//! kinds of relations between them, and their Chinese names.
use vstd::prelude::*;

verus! {

/// The view of a property: name, type, whether it is required, description.
pub type PropertyView = (Seq<char>, Seq<char>, bool, Seq<char>);

/// The view of an entity type: name, description, properties, parent type.
pub type EntityTypeView = (Seq<char>, Seq<char>, Seq<PropertyView>, Option<Seq<char>>);

/// The view of a relation type: name, description, source types, target
/// types.
pub type RelationTypeView = (Seq<char>, Seq<char>, Seq<Seq<char>>, Seq<Seq<char>>);

/// The view of an ontology: name, description, entity types, relation types.
pub type OntologyView = (Seq<char>, Seq<char>, Seq<EntityTypeView>, Seq<RelationTypeView>);

/// An ontology: the kinds of entities and relations of a knowledge graph.
pub struct Ontology {
    pub name: String,
    pub description: String,
    pub entity_types: Vec<EntityType>,
    pub relation_types: Vec<RelationType>,
}

/// A kind of entity.
pub struct EntityType {
    pub name: String,
    pub description: String,
    pub properties: Vec<Property>,
    pub parent: Option<String>,
}

/// A kind of relation, with the kinds of entities at each end.
pub struct RelationType {
    pub name: String,
    pub description: String,
    pub source_types: Vec<String>,
    pub target_types: Vec<String>,
}

/// A property of an entity type.
pub struct Property {
    pub name: String,
    pub prop_type: String,
    pub required: bool,
    pub description: String,
}

/// The texts of a list of strings.
pub open spec fn texts(v: Seq<String>) -> Seq<Seq<char>> {
    v.map_values(|s: String| s@)
}

impl View for Property {
    type V = PropertyView;

    open spec fn view(&self) -> PropertyView {
        (self.name@, self.prop_type@, self.required, self.description@)
    }
}

impl View for EntityType {
    type V = EntityTypeView;

    open spec fn view(&self) -> EntityTypeView {
        (
            self.name@,
            self.description@,
            self.properties@.map_values(|p: Property| p@),
            match self.parent {
                Some(p) => Some(p@),
                None => None,
            },
        )
    }
}

impl View for RelationType {
    type V = RelationTypeView;

    open spec fn view(&self) -> RelationTypeView {
        (self.name@, self.description@, texts(self.source_types@), texts(self.target_types@))
    }
}

impl View for Ontology {
    type V = OntologyView;

    open spec fn view(&self) -> OntologyView {
        (
            self.name@,
            self.description@,
            self.entity_types@.map_values(|e: EntityType| e@),
            self.relation_types@.map_values(|r: RelationType| r@),
        )
    }
}

/// An optional text property.
pub open spec fn text_property(name: Seq<char>, description: Seq<char>) -> PropertyView {
    (name, "string"@, false, description)
}

/// The entity types of the domain, in order.
pub open spec fn entity_types_spec() -> Seq<EntityTypeView> {
    seq![
        (
            "Task"@,
            "任务实体，表示需要完成的工作项"@,
            seq![text_property("status"@, "任务状态"@), text_property("priority"@, "任务优先级"@), text_property("category"@, "任务分类"@)],
            None,
        ),
        (
            "Document"@,
            "文档实体，表示知识载体"@,
            seq![text_property("type"@, "文档类型"@), text_property("format"@, "文档格式"@)],
            None,
        ),
        (
            "Decision"@,
            "决策实体，表示已做出的决定"@,
            seq![text_property("context"@, "决策背景"@), text_property("conclusion"@, "决策结论"@)],
            None,
        ),
        (
            "Person"@,
            "人员实体"@,
            seq![text_property("role"@, "角色"@)],
            None,
        ),
        (
            "Organization"@,
            "组织实体"@,
            seq![text_property("type"@, "组织类型"@)],
            None,
        ),
        (
            "Product"@,
            "产品/系统实体"@,
            seq![text_property("version"@, "版本"@)],
            None,
        ),
        (
            "Technology"@,
            "技术/工具实体"@,
            seq![text_property("category"@, "技术分类"@)],
            None,
        ),
        (
            "Concept"@,
            "概念实体，表示抽象概念或术语"@,
            seq![text_property("domain"@, "所属领域"@)],
            None,
        ),
    ]
}

/// The relation types of the domain, in order.
pub open spec fn relation_types_spec() -> Seq<RelationTypeView> {
    seq![
        ("requires"@, "任务需要文档"@, seq!["Task"@], seq!["Document"@]),
        ("resolves"@, "决策解决任务"@, seq!["Decision"@], seq!["Task"@]),
        ("assigned_to"@, "任务分配给人员"@, seq!["Task"@], seq!["Person"@]),
        ("belongs_to"@, "实体属于组织"@, seq!["Task"@, "Document"@, "Person"@], seq!["Organization"@]),
        ("uses"@, "任务使用技术/工具"@, seq!["Task"@], seq!["Technology"@, "Product"@]),
        ("references"@, "文档引用文档"@, seq!["Document"@], seq!["Document"@]),
        ("related_to"@, "概念相关"@, seq!["Concept"@], seq!["Concept"@, "Task"@, "Document"@]),
        ("implements"@, "技术实现产品"@, seq!["Technology"@], seq!["Product"@]),
        ("created_by"@, "文档由人员创建"@, seq!["Document"@], seq!["Person"@]),
        ("provides"@, "产品提供服务"@, seq!["Product"@], seq!["Concept"@]),
    ]
}

/// The ontology of the task and document domain.
pub open spec fn domain_ontology_spec() -> OntologyView {
    ("TaskDocumentDomain"@, "任务文档管理领域的知识图谱本体"@, entity_types_spec(), relation_types_spec())
}

fn property(name: &str, description: &str) -> (p: Property)
    ensures
        p@ == text_property(name@, description@),
{
    Property {
        name: name.to_string(),
        prop_type: "string".to_string(),
        required: false,
        description: description.to_string(),
    }
}

fn strings(v: &[&str]) -> (r: Vec<String>)
    ensures
        texts(r@) == v@.map_values(|s: &str| s@),
{
    let mut r: Vec<String> = Vec::new();
    let mut i: usize = 0;
    while i < v.len()
        invariant
            0 <= i <= v.len(),
            texts(r@) == v@.take(i as int).map_values(|s: &str| s@),
        decreases v.len() - i,
    {
        r.push(v[i].to_string());
        assert(v@.take(i + 1).map_values(|s: &str| s@) =~= v@.take(i as int).map_values(|s: &str| s@).push(v@[i as int]@));
        assert(texts(r@) =~= v@.take(i + 1).map_values(|s: &str| s@));
        i = i + 1;
    }
    assert(v@.take(v.len() as int) =~= v@);
    r
}

fn entity(name: &str, description: &str, properties: Vec<Property>) -> (e: EntityType)
    ensures
        e@ == (name@, description@, properties@.map_values(|p: Property| p@), None::<Seq<char>>),
{
    EntityType { name: name.to_string(), description: description.to_string(), properties, parent: None }
}

fn relation(name: &str, description: &str, source_types: Vec<String>, target_types: Vec<String>) -> (r: RelationType)
    ensures
        r@ == (name@, description@, texts(source_types@), texts(target_types@)),
{
    RelationType { name: name.to_string(), description: description.to_string(), source_types, target_types }
}

/// The ontology of the task and document domain: its entity types, each with
/// its properties, and its relation types, each with the entity types it
/// links.
pub fn get_domain_ontology() -> (o: Ontology)
    ensures
        o@ == domain_ontology_spec(),
{
    let p0 = vec![property("status", "任务状态"), property("priority", "任务优先级"), property("category", "任务分类")];
    assert(p0@.map_values(|p: Property| p@) =~= entity_types_spec()[0].2);
    let p1 = vec![property("type", "文档类型"), property("format", "文档格式")];
    assert(p1@.map_values(|p: Property| p@) =~= entity_types_spec()[1].2);
    let p2 = vec![property("context", "决策背景"), property("conclusion", "决策结论")];
    assert(p2@.map_values(|p: Property| p@) =~= entity_types_spec()[2].2);
    let p3 = vec![property("role", "角色")];
    assert(p3@.map_values(|p: Property| p@) =~= entity_types_spec()[3].2);
    let p4 = vec![property("type", "组织类型")];
    assert(p4@.map_values(|p: Property| p@) =~= entity_types_spec()[4].2);
    let p5 = vec![property("version", "版本")];
    assert(p5@.map_values(|p: Property| p@) =~= entity_types_spec()[5].2);
    let p6 = vec![property("category", "技术分类")];
    assert(p6@.map_values(|p: Property| p@) =~= entity_types_spec()[6].2);
    let p7 = vec![property("domain", "所属领域")];
    assert(p7@.map_values(|p: Property| p@) =~= entity_types_spec()[7].2);
    let entity_types = vec![
        entity("Task", "任务实体，表示需要完成的工作项", p0),
        entity("Document", "文档实体，表示知识载体", p1),
        entity("Decision", "决策实体，表示已做出的决定", p2),
        entity("Person", "人员实体", p3),
        entity("Organization", "组织实体", p4),
        entity("Product", "产品/系统实体", p5),
        entity("Technology", "技术/工具实体", p6),
        entity("Concept", "概念实体，表示抽象概念或术语", p7),
    ];
    assert(entity_types@.map_values(|e: EntityType| e@) =~= entity_types_spec());
    let s0 = vec!["Task".to_string()];
    assert(texts(s0@) =~= relation_types_spec()[0].2);
    let t0 = vec!["Document".to_string()];
    assert(texts(t0@) =~= relation_types_spec()[0].3);
    let s1 = vec!["Decision".to_string()];
    assert(texts(s1@) =~= relation_types_spec()[1].2);
    let t1 = vec!["Task".to_string()];
    assert(texts(t1@) =~= relation_types_spec()[1].3);
    let s2 = vec!["Task".to_string()];
    assert(texts(s2@) =~= relation_types_spec()[2].2);
    let t2 = vec!["Person".to_string()];
    assert(texts(t2@) =~= relation_types_spec()[2].3);
    let s3 = vec!["Task".to_string(), "Document".to_string(), "Person".to_string()];
    assert(texts(s3@) =~= relation_types_spec()[3].2);
    let t3 = vec!["Organization".to_string()];
    assert(texts(t3@) =~= relation_types_spec()[3].3);
    let s4 = vec!["Task".to_string()];
    assert(texts(s4@) =~= relation_types_spec()[4].2);
    let t4 = vec!["Technology".to_string(), "Product".to_string()];
    assert(texts(t4@) =~= relation_types_spec()[4].3);
    let s5 = vec!["Document".to_string()];
    assert(texts(s5@) =~= relation_types_spec()[5].2);
    let t5 = vec!["Document".to_string()];
    assert(texts(t5@) =~= relation_types_spec()[5].3);
    let s6 = vec!["Concept".to_string()];
    assert(texts(s6@) =~= relation_types_spec()[6].2);
    let t6 = vec!["Concept".to_string(), "Task".to_string(), "Document".to_string()];
    assert(texts(t6@) =~= relation_types_spec()[6].3);
    let s7 = vec!["Technology".to_string()];
    assert(texts(s7@) =~= relation_types_spec()[7].2);
    let t7 = vec!["Product".to_string()];
    assert(texts(t7@) =~= relation_types_spec()[7].3);
    let s8 = vec!["Document".to_string()];
    assert(texts(s8@) =~= relation_types_spec()[8].2);
    let t8 = vec!["Person".to_string()];
    assert(texts(t8@) =~= relation_types_spec()[8].3);
    let s9 = vec!["Product".to_string()];
    assert(texts(s9@) =~= relation_types_spec()[9].2);
    let t9 = vec!["Concept".to_string()];
    assert(texts(t9@) =~= relation_types_spec()[9].3);
    let relation_types = vec![
        relation("requires", "任务需要文档", s0, t0),
        relation("resolves", "决策解决任务", s1, t1),
        relation("assigned_to", "任务分配给人员", s2, t2),
        relation("belongs_to", "实体属于组织", s3, t3),
        relation("uses", "任务使用技术/工具", s4, t4),
        relation("references", "文档引用文档", s5, t5),
        relation("related_to", "概念相关", s6, t6),
        relation("implements", "技术实现产品", s7, t7),
        relation("created_by", "文档由人员创建", s8, t8),
        relation("provides", "产品提供服务", s9, t9),
    ];
    assert(relation_types@.map_values(|r: RelationType| r@) =~= relation_types_spec());
    Ontology {
        name: "TaskDocumentDomain".to_string(),
        description: "任务文档管理领域的知识图谱本体".to_string(),
        entity_types,
        relation_types,
    }
}

/// The Chinese name of each entity type, in the order of the ontology.
pub open spec fn entity_type_cn_spec() -> Seq<(Seq<char>, Seq<char>)> {
    seq![("Task"@, "任务"@), ("Document"@, "文档"@), ("Decision"@, "决策"@), ("Person"@, "人员"@), ("Organization"@, "组织"@), ("Product"@, "产品"@), ("Technology"@, "技术"@), ("Concept"@, "概念"@)]
}

/// The Chinese name of each entity type, as pairs of name and Chinese name.
pub fn entity_type_cn_map() -> (r: Vec<(String, String)>)
    ensures
        r@.map_values(|p: (String, String)| (p.0@, p.1@)) == entity_type_cn_spec(),
{
    let r = vec![
        ("Task".to_string(), "任务".to_string()),
        ("Document".to_string(), "文档".to_string()),
        ("Decision".to_string(), "决策".to_string()),
        ("Person".to_string(), "人员".to_string()),
        ("Organization".to_string(), "组织".to_string()),
        ("Product".to_string(), "产品".to_string()),
        ("Technology".to_string(), "技术".to_string()),
        ("Concept".to_string(), "概念".to_string()),
    ];
    assert(r@.map_values(|p: (String, String)| (p.0@, p.1@)) =~= entity_type_cn_spec());
    r
}

/// The Chinese name of each relation type, in the order of the ontology.
pub open spec fn relation_type_cn_spec() -> Seq<(Seq<char>, Seq<char>)> {
    seq![("requires"@, "需要"@), ("resolves"@, "解决"@), ("assigned_to"@, "分配给"@), ("belongs_to"@, "属于"@), ("uses"@, "使用"@), ("references"@, "引用"@), ("related_to"@, "相关"@), ("implements"@, "实现"@), ("created_by"@, "创建于"@), ("provides"@, "提供"@)]
}

/// The Chinese name of each relation type, as pairs of name and Chinese name.
pub fn relation_type_cn_map() -> (r: Vec<(String, String)>)
    ensures
        r@.map_values(|p: (String, String)| (p.0@, p.1@)) == relation_type_cn_spec(),
{
    let r = vec![
        ("requires".to_string(), "需要".to_string()),
        ("resolves".to_string(), "解决".to_string()),
        ("assigned_to".to_string(), "分配给".to_string()),
        ("belongs_to".to_string(), "属于".to_string()),
        ("uses".to_string(), "使用".to_string()),
        ("references".to_string(), "引用".to_string()),
        ("related_to".to_string(), "相关".to_string()),
        ("implements".to_string(), "实现".to_string()),
        ("created_by".to_string(), "创建于".to_string()),
        ("provides".to_string(), "提供".to_string()),
    ];
    assert(r@.map_values(|p: (String, String)| (p.0@, p.1@)) =~= relation_type_cn_spec());
    r
}


/// The names of the entity types, in order.
pub open spec fn entity_names() -> Seq<Seq<char>> {
    entity_types_spec().map_values(|e: EntityTypeView| e.0)
}

/// The names of the relation types, in order.
pub open spec fn relation_names() -> Seq<Seq<char>> {
    relation_types_spec().map_values(|r: RelationTypeView| r.0)
}

/// Every relation type links, at both ends, entity types that the ontology
/// defines.
pub proof fn lemma_relations_link_entity_types()
    ensures
        forall|i: int, j: int|
            0 <= i < relation_types_spec().len() && 0 <= j < relation_types_spec()[i].2.len()
                ==> entity_names().contains(#[trigger] relation_types_spec()[i].2[j]),
        forall|i: int, j: int|
            0 <= i < relation_types_spec().len() && 0 <= j < relation_types_spec()[i].3.len()
                ==> entity_names().contains(#[trigger] relation_types_spec()[i].3[j]),
{
    let names = entity_names();
    assert(names[0] == "Task"@);
    assert(names[1] == "Document"@);
    assert(names[2] == "Decision"@);
    assert(names[3] == "Person"@);
    assert(names[4] == "Organization"@);
    assert(names[5] == "Product"@);
    assert(names[6] == "Technology"@);
    assert(names[7] == "Concept"@);
}

/// The Chinese names are given for exactly the entity types and the relation
/// types of the ontology, in the same order.
pub proof fn lemma_cn_names_match_types()
    ensures
        entity_type_cn_spec().map_values(|p: (Seq<char>, Seq<char>)| p.0) == entity_names(),
        relation_type_cn_spec().map_values(|p: (Seq<char>, Seq<char>)| p.0) == relation_names(),
{
    assert(entity_type_cn_spec().map_values(|p: (Seq<char>, Seq<char>)| p.0) =~= entity_names());
    assert(relation_type_cn_spec().map_values(|p: (Seq<char>, Seq<char>)| p.0) =~= relation_names());
}
} // verus!
