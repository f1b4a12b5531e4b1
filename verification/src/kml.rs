use vstd::prelude::*;

verus! {

/// The fixed KML style block shared by every document the rendering
/// collaborator writes: one style map with its normal and highlight
/// styles.  The icon color is ABGR with `00` meaning clear.
pub open spec fn style_kml() -> Seq<char> {
    r#"
    <StyleMap id="icon-1739-0288D1-nodesc">
        <Pair>
			<key>normal</key>
			<styleUrl>#icon-1739-0288D1-nodesc-normal</styleUrl>
		</Pair>
		<Pair>
			<key>highlight</key>
			<styleUrl>#icon-1739-0288D1-nodesc-highlight</styleUrl>
		</Pair>
	</StyleMap>
	<Style id="icon-1739-0288D1-nodesc-normal">
        <IconStyle>
            <color>ffd18802</color>
            <scale>1</scale>
            <Icon>
                <href>https://www.gstatic.com/mapspro/images/stock/503-wht-blank_maps.png</href>
            </Icon>
        </IconStyle>
        <LabelStyle>
            <scale>0</scale>
        </LabelStyle>
        <BalloonStyle>
            <text><![CDATA[<h3>$[name]</h3>]]></text>
        </BalloonStyle>
		<LineStyle>
			<color>ff0000ff</color>
			<width>3</width>
		</LineStyle>
		<PolyStyle>
            <outline>1</outline>
			<fill>1</fill>
            <color>200000ff</color>
		</PolyStyle>
	</Style>
	<Style id="icon-1739-0288D1-nodesc-highlight">
        <IconStyle>
            <color>ffd18802</color>
            <scale>1</scale>
            <Icon>
                <href>https://www.gstatic.com/mapspro/images/stock/503-wht-blank_maps.png</href>
            </Icon>
        </IconStyle>
        <LabelStyle>
            <scale>1</scale>
        </LabelStyle>
        <BalloonStyle>
            <text><![CDATA[<h3>$[name]</h3>]]></text>
        </BalloonStyle>
		<LineStyle>
			<color>ff0000ff</color>
			<width>3</width>
		</LineStyle>
		<PolyStyle>
            <outline>1</outline>
			<fill>1</fill>
            <color>200000ff</color>
		</PolyStyle>
	</Style>"#@
}

/// Hands the rendering collaborator the style block, exactly the text of
/// `style_kml`.
pub fn get_style_kml() -> (r: String)
    ensures
        r@ == style_kml(),
{
    String::from_str(
        r#"
    <StyleMap id="icon-1739-0288D1-nodesc">
        <Pair>
			<key>normal</key>
			<styleUrl>#icon-1739-0288D1-nodesc-normal</styleUrl>
		</Pair>
		<Pair>
			<key>highlight</key>
			<styleUrl>#icon-1739-0288D1-nodesc-highlight</styleUrl>
		</Pair>
	</StyleMap>
	<Style id="icon-1739-0288D1-nodesc-normal">
        <IconStyle>
            <color>ffd18802</color>
            <scale>1</scale>
            <Icon>
                <href>https://www.gstatic.com/mapspro/images/stock/503-wht-blank_maps.png</href>
            </Icon>
        </IconStyle>
        <LabelStyle>
            <scale>0</scale>
        </LabelStyle>
        <BalloonStyle>
            <text><![CDATA[<h3>$[name]</h3>]]></text>
        </BalloonStyle>
		<LineStyle>
			<color>ff0000ff</color>
			<width>3</width>
		</LineStyle>
		<PolyStyle>
            <outline>1</outline>
			<fill>1</fill>
            <color>200000ff</color>
		</PolyStyle>
	</Style>
	<Style id="icon-1739-0288D1-nodesc-highlight">
        <IconStyle>
            <color>ffd18802</color>
            <scale>1</scale>
            <Icon>
                <href>https://www.gstatic.com/mapspro/images/stock/503-wht-blank_maps.png</href>
            </Icon>
        </IconStyle>
        <LabelStyle>
            <scale>1</scale>
        </LabelStyle>
        <BalloonStyle>
            <text><![CDATA[<h3>$[name]</h3>]]></text>
        </BalloonStyle>
		<LineStyle>
			<color>ff0000ff</color>
			<width>3</width>
		</LineStyle>
		<PolyStyle>
            <outline>1</outline>
			<fill>1</fill>
            <color>200000ff</color>
		</PolyStyle>
	</Style>"#,
    )
}

} // verus!
